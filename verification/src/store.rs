//! The alias store and the wallet aggregate.
//!
//! A wallet owns a single alias namespace (keys and addresses share it)
//! and at most one validator key bundle. No two live entries ever share
//! an alias; a write that would collide goes through the conflict
//! resolution protocol before the store is touched.

use vstd::prelude::*;
use vstd::map::*;
use vstd::string::StringExecFns;
use crate::codec::{StoredKeypair, StoredKeypairV};
use crate::keys::{digest_of, PublicKey, SecretKey, KEY_LEN};
use crate::confirm::{decide, spec_decision, ConfirmationResponse, ConfirmationResponseV};

verus! {

/// The lower-case form of an alias, as the normalization routine returns
/// it.
pub uninterp spec fn lower_of(s: Seq<char>) -> Seq<char>;

/// Relies on str::to_lowercase: the result depends on the characters
/// alone.
#[verifier::external_body]
pub(crate) fn normalize_alias(s: &String) -> (r: String)
    ensures
        r@ == lower_of(s@),
{
    s.to_lowercase()
}

/// A transparent address: the store keeps it, the ledger interprets it.
pub struct Address {
    pub text: String,
}

impl View for Address {
    type V = Seq<char>;

    open spec fn view(&self) -> Seq<char> {
        self.text@
    }
}

impl Address {
    /// An owned copy of this address.
    pub fn copied(&self) -> (r: Address)
        ensures
            r@ == self@,
    {
        Address { text: self.text.clone() }
    }
}

/// One aliased entry of the store.
pub enum Entry {
    /// A stored keypair, its public key, and the content-derived
    /// identifier of that public key, fixed when the entry is made.
    Key { pair: StoredKeypair, public_key: PublicKey, pkh: Vec<u8> },
    /// A bare address.
    Addr(Address),
}

/// The mathematical value of an entry.
pub enum EntryV {
    Key { pair: StoredKeypairV, public_key: Seq<u8>, pkh: Seq<u8> },
    Addr(Seq<char>),
}

impl View for Entry {
    type V = EntryV;

    open spec fn view(&self) -> EntryV {
        match *self {
            Entry::Key { pair, public_key, pkh } => EntryV::Key {
                pair: pair@,
                public_key: public_key@,
                pkh: pkh@,
            },
            Entry::Addr(a) => EntryV::Addr(a@),
        }
    }
}

impl Entry {
    /// A well-formed entry holds well-formed key material.
    pub open spec fn wf(&self) -> bool {
        match *self {
            Entry::Key { pair, public_key, pkh } => pair.wf() && public_key.wf(),
            Entry::Addr(_) => true,
        }
    }
}

/// Make a key entry for the store, fixing the content-derived identifier
/// of its public key.
pub fn new_key_entry(pair: StoredKeypair, public_key: PublicKey) -> (r: Entry)
    requires
        pair.wf(),
        public_key.wf(),
    ensures
        r@ == (EntryV::Key {
            pair: pair@,
            public_key: public_key@,
            pkh: digest_of(public_key@),
        }),
        r.wf(),
{
    let pkh = public_key.hash();
    Entry::Key { pair, public_key, pkh }
}

/// The complete role-specific key bundle of a validator.
pub struct ValidatorKeys {
    /// Signs protocol transactions.
    pub protocol_keypair: SecretKey,
    /// Signs Ethereum bridge material.
    pub eth_bridge_keypair: SecretKey,
    /// Participates in distributed key generation.
    pub dkg_keypair: SecretKey,
}

impl ValidatorKeys {
    /// All three keys are well-formed.
    pub open spec fn wf(&self) -> bool {
        self.protocol_keypair.wf() && self.eth_bridge_keypair.wf() && self.dkg_keypair.wf()
    }
}

/// The validator identity a wallet may carry: its address and its keys.
pub struct ValidatorData {
    pub address: Address,
    pub keys: ValidatorKeys,
}

impl ValidatorData {
    pub open spec fn wf(&self) -> bool {
        self.keys.wf()
    }
}

/// No two positions of the entry sequence share an alias.
pub open spec fn unique_aliases(s: Seq<(String, Entry)>) -> bool {
    forall|i: int, j: int| 0 <= i < j < s.len() ==> s[i].0@ != s[j].0@
}

/// The alias map that an entry sequence denotes; a later position wins,
/// though under `unique_aliases` there is nothing to win over.
pub open spec fn map_of(s: Seq<(String, Entry)>) -> Map<Seq<char>, EntryV>
    decreases s.len(),
{
    if s.len() == 0 {
        Map::empty()
    } else {
        map_of(s.drop_last()).insert(s.last().0@, s.last().1@)
    }
}

/// An alias is in the map exactly when some position holds it.
pub proof fn lemma_map_of_contains(s: Seq<(String, Entry)>, a: Seq<char>)
    ensures
        map_of(s).contains_key(a) <==> (exists|i: int| 0 <= i < s.len() && s[i].0@ == a),
    decreases s.len(),
{
    if s.len() > 0 {
        lemma_map_of_contains(s.drop_last(), a);
        if s.last().0@ == a {
            assert(s[s.len() - 1].0@ == a);
        } else {
            if map_of(s).contains_key(a) {
                let i = choose|i: int| 0 <= i < s.drop_last().len() && s.drop_last()[i].0@ == a;
                assert(s[i].0@ == a);
            }
            if exists|i: int| 0 <= i < s.len() && s[i].0@ == a {
                let i = choose|i: int| 0 <= i < s.len() && s[i].0@ == a;
                assert(i < s.len() - 1);
                assert(s.drop_last()[i].0@ == a);
            }
        }
    }
}

/// Under unique aliases, the map sends an alias to the entry at its
/// position.
pub proof fn lemma_map_of_index(s: Seq<(String, Entry)>, i: int)
    requires
        unique_aliases(s),
        0 <= i < s.len(),
    ensures
        map_of(s).contains_key(s[i].0@),
        map_of(s)[s[i].0@] == s[i].1@,
    decreases s.len(),
{
    if i == s.len() - 1 {
    } else {
        assert(s[i].0@ != s[s.len() - 1].0@);
        assert(forall|x: int, y: int|
            0 <= x < y < s.drop_last().len() ==> s.drop_last()[x].0@ != s.drop_last()[y].0@);
        lemma_map_of_index(s.drop_last(), i);
        assert(s.drop_last()[i] == s[i]);
    }
}

/// Updating the position that holds an alias updates the map at that
/// alias and nothing else.
pub proof fn lemma_map_of_update(s: Seq<(String, Entry)>, i: int, x: (String, Entry))
    requires
        unique_aliases(s),
        0 <= i < s.len(),
        x.0@ == s[i].0@,
    ensures
        map_of(s.update(i, x)) == map_of(s).insert(x.0@, x.1@),
    decreases s.len(),
{
    let t = s.update(i, x);
    if i == s.len() - 1 {
        assert(t.drop_last() =~= s.drop_last());
        assert(t.last() == x);
        assert(map_of(t) =~= map_of(s).insert(x.0@, x.1@));
    } else {
        assert(s[i].0@ != s[s.len() - 1].0@);
        assert(forall|p: int, q: int|
            0 <= p < q < s.drop_last().len() ==> s.drop_last()[p].0@ != s.drop_last()[q].0@);
        assert(t.drop_last() =~= s.drop_last().update(i, x));
        assert(s.drop_last()[i] == s[i]);
        lemma_map_of_update(s.drop_last(), i, x);
        assert(t.last() == s.last());
        assert(map_of(t) =~= map_of(s).insert(x.0@, x.1@));
    }
}

/// What an attempted insert came to.
pub enum AddOutcome {
    /// The entry stands in the store under the requested alias.
    Added,
    /// The authority chose to keep the existing entry; nothing changed.
    Skipped,
    /// The authority chose a new alias; nothing changed, and the caller
    /// must re-run the full insert path under the new alias.
    Reselect(String),
    /// The script of answers ran out without a recognized choice;
    /// nothing changed.
    Undecided,
}

/// The mathematical value of an insert outcome.
pub enum AddOutcomeV {
    Added,
    Skipped,
    Reselect(Seq<char>),
    Undecided,
}

impl View for AddOutcome {
    type V = AddOutcomeV;

    open spec fn view(&self) -> AddOutcomeV {
        match *self {
            AddOutcome::Added => AddOutcomeV::Added,
            AddOutcome::Skipped => AddOutcomeV::Skipped,
            AddOutcome::Reselect(a) => AddOutcomeV::Reselect(a@),
            AddOutcome::Undecided => AddOutcomeV::Undecided,
        }
    }
}

/// The outcome that a collision decision dictates.
pub open spec fn outcome_of_decision(d: Option<ConfirmationResponseV>) -> AddOutcomeV {
    match d {
        None => AddOutcomeV::Undecided,
        Some(ConfirmationResponseV::Replace) => AddOutcomeV::Added,
        Some(ConfirmationResponseV::Skip) => AddOutcomeV::Skipped,
        Some(ConfirmationResponseV::Reselect(b)) => AddOutcomeV::Reselect(b),
    }
}

/// The wallet: the aggregate root over the alias store and the optional
/// validator identity.
pub struct Wallet {
    pub entries: Vec<(String, Entry)>,
    pub validator_data: Option<ValidatorData>,
}

impl Wallet {
    /// The alias map this wallet denotes.
    pub open spec fn store_map(&self) -> Map<Seq<char>, EntryV> {
        map_of(self.entries@)
    }

    /// Well-formed: unique aliases, well-formed entries and validator
    /// data.
    pub open spec fn wf(&self) -> bool {
        &&& unique_aliases(self.entries@)
        &&& forall|i: int| 0 <= i < self.entries@.len() ==> (#[trigger] self.entries@[i].1).wf()
        &&& match self.validator_data {
            Some(vd) => vd.wf(),
            None => true,
        }
    }

    /// An empty wallet: no aliases, no validator identity.
    pub fn new_empty() -> (r: Wallet)
        ensures
            r.wf(),
            r.store_map() == Map::<Seq<char>, EntryV>::empty(),
            r.validator_data is None,
    {
        Wallet { entries: Vec::new(), validator_data: None }
    }

    /// The position that holds an alias, if any.
    fn find_index(&self, alias: &String) -> (r: Option<usize>)
        ensures
            match r {
                Some(i) => i < self.entries@.len() && self.entries@[i as int].0@ == alias@,
                None => forall|i: int|
                    0 <= i < self.entries@.len() ==> self.entries@[i].0@ != alias@,
            },
    {
        let n: usize = self.entries.len();
        let mut i: usize = 0;
        while i < n
            invariant
                n == self.entries@.len(),
                0 <= i <= n,
                forall|j: int| 0 <= j < i ==> self.entries@[j].0@ != alias@,
            decreases n - i,
        {
            if self.entries[i].0 == *alias {
                return Some(i);
            }
            i += 1;
        }
        None
    }

    /// Whether an alias is live in the store.
    pub fn contains_alias(&self, alias: &String) -> (r: bool)
        ensures
            r == self.store_map().contains_key(alias@),
    {
        proof {
            lemma_map_of_contains(self.entries@, alias@);
        }
        match self.find_index(alias) {
            Some(_) => true,
            None => false,
        }
    }

    /// The entry under an alias, if any.
    pub fn get_entry(&self, alias: &String) -> (r: Option<&Entry>)
        requires
            self.wf(),
        ensures
            match r {
                Some(e) => self.store_map().contains_key(alias@) && self.store_map()[alias@]
                    == e@ && e.wf(),
                None => !self.store_map().contains_key(alias@),
            },
    {
        proof {
            lemma_map_of_contains(self.entries@, alias@);
        }
        match self.find_index(alias) {
            Some(i) => {
                proof {
                    lemma_map_of_index(self.entries@, i as int);
                    assert(self.entries@[i as int].1.wf());
                }
                Some(&self.entries[i].1)
            },
            None => None,
        }
    }

    /// Insert or overwrite unconditionally.
    fn raw_insert(&mut self, alias: String, entry: Entry)
        requires
            old(self).wf(),
            entry.wf(),
        ensures
            final(self).wf(),
            final(self).store_map() == old(self).store_map().insert(alias@, entry@),
            final(self).validator_data == old(self).validator_data,
    {
        let ghost s = self.entries@;
        match self.find_index(&alias) {
            Some(i) => {
                proof {
                    lemma_map_of_update(s, i as int, (alias, entry));
                }
                self.entries.set(i, (alias, entry));
                proof {
                    assert(forall|p: int, q: int|
                        0 <= p < q < final(self).entries@.len()
                            ==> final(self).entries@[p].0@ != final(self).entries@[q].0@);
                }
            },
            None => {
                self.entries.push((alias, entry));
                proof {
                    assert(final(self).entries@.drop_last() =~= s);
                    assert(final(self).store_map() == old(self).store_map().insert(
                        alias@,
                        entry@,
                    ));
                }
            },
        }
    }

    /// Insert an entry under an alias.
    ///
    /// If `force` is set or the alias is unused, the entry is stored
    /// unconditionally. Otherwise the collision is put to the resolving
    /// authority, whose answers arrive as the ordered `script` of lines;
    /// only a replace answer mutates the store, and every other outcome
    /// leaves it untouched.
    pub fn add(&mut self, alias: String, entry: Entry, force: bool, script: &Vec<String>) -> (r:
        AddOutcome)
        requires
            old(self).wf(),
            entry.wf(),
        ensures
            final(self).wf(),
            final(self).validator_data == old(self).validator_data,
            (force || !old(self).store_map().contains_key(alias@)) ==> r@ == AddOutcomeV::Added,
            (!force && old(self).store_map().contains_key(alias@)) ==> r@ == outcome_of_decision(
                spec_decision(script.deep_view()),
            ),
            r@ == AddOutcomeV::Added ==> final(self).store_map() == old(self).store_map().insert(
                alias@,
                entry@,
            ),
            r@ != AddOutcomeV::Added ==> final(self).store_map() == old(self).store_map(),
    {
        if force {
            self.raw_insert(alias, entry);
            return AddOutcome::Added;
        }
        if !self.contains_alias(&alias) {
            self.raw_insert(alias, entry);
            return AddOutcome::Added;
        }
        match decide(script) {
            None => AddOutcome::Undecided,
            Some(ConfirmationResponse::Replace) => {
                self.raw_insert(alias, entry);
                AddOutcome::Added
            },
            Some(ConfirmationResponse::Skip) => AddOutcome::Skipped,
            Some(ConfirmationResponse::Reselect(b)) => AddOutcome::Reselect(b),
        }
    }
}

/// Entries loaded from the persistent store, handed in by the boundary.
pub enum LoadOutcome {
    /// No store exists yet.
    Missing,
    /// The store was read and decoded.
    Loaded(Wallet),
    /// The store exists but could not be read or decoded.
    Broken,
}

/// A store that exists but cannot be used is fatal; a missing store is
/// not.
#[derive(Debug)]
pub enum StoreError {
    Corrupt,
}

/// Start from the persistent store's load outcome: a missing store means
/// an empty wallet, a broken store is a fatal error.
pub fn load_or_new(outcome: LoadOutcome) -> (r: Result<Wallet, StoreError>)
    requires
        outcome matches LoadOutcome::Loaded(w) ==> w.wf(),
    ensures
        match outcome {
            LoadOutcome::Missing => r matches Ok(w) && w.wf() && w.store_map()
                == Map::<Seq<char>, EntryV>::empty() && w.validator_data is None,
            LoadOutcome::Loaded(w0) => r matches Ok(w) && w == w0,
            LoadOutcome::Broken => r == Err::<Wallet, StoreError>(StoreError::Corrupt),
        },
{
    match outcome {
        LoadOutcome::Missing => Ok(Wallet::new_empty()),
        LoadOutcome::Loaded(w) => Ok(w),
        LoadOutcome::Broken => Err(StoreError::Corrupt),
    }
}

/// The directory that holds a validator's standalone pre-genesis wallet:
/// the `pre-genesis` subdirectory of the base directory, then the
/// validator's alias.
pub fn validator_pre_genesis_dir(base_dir: &String, alias: &String) -> (r: String)
    ensures
        r@ == base_dir@ + "/pre-genesis/"@ + alias@,
{
    let mut out = base_dir.clone();
    out.append("/pre-genesis/");
    out.append(alias.as_str());
    out
}

/// The map after the genesis addresses are added: each alias, in its
/// normalized form, is bound to its address, later pairs winning.
pub open spec fn genesis_inserted(
    m: Map<Seq<char>, EntryV>,
    pairs: Seq<(String, Address)>,
) -> Map<Seq<char>, EntryV>
    decreases pairs.len(),
{
    if pairs.len() == 0 {
        m
    } else {
        genesis_inserted(m, pairs.drop_last()).insert(
            lower_of(pairs.last().0@),
            EntryV::Addr(pairs.last().1@),
        )
    }
}

/// Add addresses from a genesis configuration, unconditionally, under
/// their normalized aliases.
pub fn add_genesis_addresses(wallet: &mut Wallet, pairs: Vec<(String, Address)>)
    requires
        old(wallet).wf(),
    ensures
        final(wallet).wf(),
        final(wallet).store_map() == genesis_inserted(old(wallet).store_map(), pairs@),
        final(wallet).validator_data == old(wallet).validator_data,
{
    let n: usize = pairs.len();
    let mut i: usize = 0;
    let empty_script: Vec<String> = Vec::new();
    while i < n
        invariant
            n == pairs@.len(),
            0 <= i <= n,
            wallet.wf(),
            wallet.store_map() == genesis_inserted(old(wallet).store_map(), pairs@.take(i as int)),
            wallet.validator_data == old(wallet).validator_data,
        decreases n - i,
    {
        let alias = normalize_alias(&pairs[i].0);
        let address = pairs[i].1.copied();
        let _outcome = wallet.add(alias, Entry::Addr(address), true, &empty_script);
        proof {
            assert(pairs@.take(i + 1 as int).drop_last() =~= pairs@.take(i as int));
            assert(pairs@.take(i + 1 as int).last() == pairs@[i as int]);
        }
        i += 1;
    }
    proof {
        assert(pairs@.take(n as int) =~= pairs@);
    }
}

/// Replacing a collided alias leaves exactly the new entry under it and
/// every other binding untouched; skipping leaves the store as it was,
/// so the existing entry stays and the new entry is stored nowhere if it
/// was stored nowhere before.
pub proof fn lemma_conflict_outcomes(
    m: Map<Seq<char>, EntryV>,
    a: Seq<char>,
    e1: EntryV,
    e2: EntryV,
)
    requires
        m.contains_key(a),
        m[a] == e1,
        e1 != e2,
        forall|k: Seq<char>| m.contains_key(k) ==> m[k] != e2,
    ensures
        m.insert(a, e2)[a] == e2,
        forall|k: Seq<char>| m.contains_key(k) && k != a ==> m.insert(a, e2)[k] == m[k],
        m[a] == e1 && forall|k: Seq<char>| m.contains_key(k) ==> m[k] != e2,
{
}

/// A reselect answer never mutates the store under the colliding alias,
/// and a later successful insert under the newly chosen alias is
/// independent of the aborted attempt: it lands exactly as it would have
/// in the untouched store, and the colliding alias still holds its old
/// entry.
pub proof fn lemma_reselect_independent(
    m: Map<Seq<char>, EntryV>,
    a: Seq<char>,
    b: Seq<char>,
    e1: EntryV,
    e2: EntryV,
)
    requires
        m.contains_key(a),
        m[a] == e1,
        a != b,
    ensures
        m.insert(b, e2)[a] == e1,
        m.insert(b, e2)[b] == e2,
{
}

} // verus!
