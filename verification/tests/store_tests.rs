use genesis_wallet::codec::StoredKeypair;
use genesis_wallet::keys::SecretKey;
use genesis_wallet::store::{
    add_genesis_addresses, load_or_new, new_key_entry, validator_pre_genesis_dir, AddOutcome,
    Address, Entry, LoadOutcome, StoreError, Wallet,
};

fn addr_entry(s: &str) -> Entry {
    Entry::Addr(Address { text: s.to_string() })
}

fn key_entry(seed: u8) -> Entry {
    let sk = SecretKey { bytes: vec![seed; 32] };
    let pk = sk.to_public();
    new_key_entry(StoredKeypair::Plain(sk), pk)
}

fn entry_addr_text(e: &Entry) -> Option<String> {
    match e {
        Entry::Addr(a) => Some(a.text.clone()),
        _ => None,
    }
}

#[test]
fn insert_into_free_alias_lands() {
    let mut w = Wallet::new_empty();
    let out = w.add("a".to_string(), addr_entry("addr1"), false, &Vec::new());
    assert!(matches!(out, AddOutcome::Added));
    let e = w.get_entry(&"a".to_string()).unwrap();
    assert_eq!(entry_addr_text(e).unwrap(), "addr1");
}

#[test]
fn replace_chosen_leaves_exactly_the_new_entry() {
    let mut w = Wallet::new_empty();
    w.add("a".to_string(), addr_entry("addr1"), false, &Vec::new());
    let script = vec!["p".to_string()];
    let out = w.add("a".to_string(), addr_entry("addr2"), false, &script);
    assert!(matches!(out, AddOutcome::Added));
    let e = w.get_entry(&"a".to_string()).unwrap();
    assert_eq!(entry_addr_text(e).unwrap(), "addr2");
    assert_eq!(w.entries.len(), 1);
}

#[test]
fn skip_chosen_keeps_the_old_entry_and_drops_the_new_one() {
    let mut w = Wallet::new_empty();
    w.add("a".to_string(), addr_entry("addr1"), false, &Vec::new());
    let script = vec!["k".to_string()];
    let out = w.add("a".to_string(), addr_entry("addr2"), false, &script);
    assert!(matches!(out, AddOutcome::Skipped));
    let e = w.get_entry(&"a".to_string()).unwrap();
    assert_eq!(entry_addr_text(e).unwrap(), "addr1");
    for (_, entry) in w.entries.iter() {
        assert_ne!(entry_addr_text(entry).as_deref(), Some("addr2"));
    }
}

#[test]
fn force_overwrites_without_asking() {
    let mut w = Wallet::new_empty();
    w.add("a".to_string(), addr_entry("addr1"), false, &Vec::new());
    let out = w.add("a".to_string(), addr_entry("addr2"), true, &Vec::new());
    assert!(matches!(out, AddOutcome::Added));
    let e = w.get_entry(&"a".to_string()).unwrap();
    assert_eq!(entry_addr_text(e).unwrap(), "addr2");
}

#[test]
fn reselect_leaves_store_untouched_and_later_insert_is_independent() {
    let mut w = Wallet::new_empty();
    w.add("a".to_string(), addr_entry("addr1"), false, &Vec::new());
    let script = vec!["s".to_string(), "b".to_string()];
    let out = w.add("a".to_string(), addr_entry("addr2"), false, &script);
    match out {
        AddOutcome::Reselect(b) => assert_eq!(b, "b"),
        _ => panic!("expected a reselect outcome"),
    }
    let e = w.get_entry(&"a".to_string()).unwrap();
    assert_eq!(entry_addr_text(e).unwrap(), "addr1");
    assert_eq!(w.entries.len(), 1);
    let out2 = w.add("b".to_string(), addr_entry("addr2"), false, &Vec::new());
    assert!(matches!(out2, AddOutcome::Added));
    assert_eq!(
        entry_addr_text(w.get_entry(&"a".to_string()).unwrap()).unwrap(),
        "addr1"
    );
    assert_eq!(
        entry_addr_text(w.get_entry(&"b".to_string()).unwrap()).unwrap(),
        "addr2"
    );
}

#[test]
fn unrecognized_answers_are_asked_again_until_a_choice() {
    let mut w = Wallet::new_empty();
    w.add("a".to_string(), addr_entry("addr1"), false, &Vec::new());
    let script = vec!["x".to_string(), "".to_string(), "P".to_string()];
    let out = w.add("a".to_string(), addr_entry("addr2"), false, &script);
    assert!(matches!(out, AddOutcome::Added));
    assert_eq!(
        entry_addr_text(w.get_entry(&"a".to_string()).unwrap()).unwrap(),
        "addr2"
    );
}

#[test]
fn a_script_without_a_choice_changes_nothing() {
    let mut w = Wallet::new_empty();
    w.add("a".to_string(), addr_entry("addr1"), false, &Vec::new());
    let script = vec!["zzz".to_string()];
    let out = w.add("a".to_string(), addr_entry("addr2"), false, &script);
    assert!(matches!(out, AddOutcome::Undecided));
    assert_eq!(
        entry_addr_text(w.get_entry(&"a".to_string()).unwrap()).unwrap(),
        "addr1"
    );
}

#[test]
fn reselect_marker_on_the_last_line_yields_no_decision() {
    let mut w = Wallet::new_empty();
    w.add("a".to_string(), addr_entry("addr1"), false, &Vec::new());
    let script = vec!["s".to_string()];
    let out = w.add("a".to_string(), addr_entry("addr2"), false, &script);
    assert!(matches!(out, AddOutcome::Undecided));
}

#[test]
fn key_and_address_share_one_alias_space() {
    let mut w = Wallet::new_empty();
    w.add("a".to_string(), key_entry(7), false, &Vec::new());
    let script = vec!["k".to_string()];
    let out = w.add("a".to_string(), addr_entry("addr1"), false, &script);
    assert!(matches!(out, AddOutcome::Skipped));
    assert_eq!(w.entries.len(), 1);
}

#[test]
fn genesis_addresses_are_added_under_normalized_aliases() {
    let mut w = Wallet::new_empty();
    let pairs = vec![
        (
            "Validator-One".to_string(),
            Address { text: "addr1".to_string() },
        ),
        ("other".to_string(), Address { text: "addr2".to_string() }),
    ];
    add_genesis_addresses(&mut w, pairs);
    assert_eq!(
        entry_addr_text(w.get_entry(&"validator-one".to_string()).unwrap()).unwrap(),
        "addr1"
    );
    assert_eq!(
        entry_addr_text(w.get_entry(&"other".to_string()).unwrap()).unwrap(),
        "addr2"
    );
}

#[test]
fn missing_store_loads_as_an_empty_wallet() {
    let w = load_or_new(LoadOutcome::Missing).unwrap();
    assert_eq!(w.entries.len(), 0);
    assert!(w.validator_data.is_none());
}

#[test]
fn broken_store_is_a_fatal_load_error() {
    let r = load_or_new(LoadOutcome::Broken);
    assert!(matches!(r, Err(StoreError::Corrupt)));
}

#[test]
fn loaded_store_passes_through() {
    let mut w = Wallet::new_empty();
    w.add("a".to_string(), addr_entry("addr1"), false, &Vec::new());
    let w2 = load_or_new(LoadOutcome::Loaded(w)).unwrap();
    assert_eq!(w2.entries.len(), 1);
}

#[test]
fn validator_pre_genesis_dir_joins_the_parts() {
    let d = validator_pre_genesis_dir(&"/base".to_string(), &"v1".to_string());
    assert_eq!(d, "/base/pre-genesis/v1");
}
