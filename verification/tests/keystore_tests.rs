use netover::keystore::{EditOptions, KeyTable, StoredKey};

fn key(available: bool, body: &str) -> StoredKey {
    StoredKey { available, body: body.to_string() }
}

fn sorted(mut v: Vec<String>) -> Vec<String> {
    v.sort();
    v
}

fn table() -> KeyTable {
    KeyTable::from_entries(vec![
        ("ABCDEF".to_string(), key(true, "")),
        ("GHIJKL".to_string(), key(false, "")),
        ("MNOPQR".to_string(), key(true, "")),
    ])
}

#[test]
fn insert_get_remove() {
    let mut t = KeyTable::new();
    assert_eq!(t.len(), 0);
    t.insert("ABCDEF".to_string(), key(true, "x"));
    t.insert("ABCDEF".to_string(), key(false, "y"));
    assert_eq!(t.len(), 1);
    let got = t.get(&"ABCDEF".to_string()).unwrap();
    assert!(!got.available);
    assert_eq!(got.body, "y");
    assert!(t.contains(&"ABCDEF".to_string()));
    let removed = t.remove(&"ABCDEF".to_string()).unwrap();
    assert_eq!(removed.body, "y");
    assert!(t.get(&"ABCDEF".to_string()).is_none());
    assert!(t.remove(&"ABCDEF".to_string()).is_none());
}

#[test]
fn later_entry_wins_when_loading() {
    let t = KeyTable::from_entries(vec![
        ("ABCDEF".to_string(), key(true, "first")),
        ("ABCDEF".to_string(), key(false, "second")),
    ]);
    assert_eq!(t.len(), 1);
    assert_eq!(t.get(&"ABCDEF".to_string()).unwrap().body, "second");
    let entries = t.into_entries();
    assert_eq!(entries.len(), 1);
}

#[test]
fn lists_all_and_available_ids() {
    let t = table();
    assert_eq!(sorted(t.ids()), vec!["ABCDEF", "GHIJKL", "MNOPQR"]);
    assert_eq!(sorted(t.available_ids()), vec!["ABCDEF", "MNOPQR"]);
}

#[test]
fn record_pairing_adds_an_available_empty_entry() {
    let mut t = table();
    t.record_pairing("GHIJKL".to_string());
    let k = t.get(&"GHIJKL".to_string()).unwrap();
    assert!(k.available);
    assert_eq!(k.body, "");
    t.record_pairing("STUVWX".to_string());
    assert_eq!(t.len(), 4);
}

#[test]
fn set_body_only_touches_existing_entries() {
    let mut t = table();
    t.set_body(&"GHIJKL".to_string(), "secret".to_string());
    let k = t.get(&"GHIJKL".to_string()).unwrap();
    assert!(!k.available);
    assert_eq!(k.body, "secret");
    t.set_body(&"ZZZZZZ".to_string(), "secret".to_string());
    assert!(!t.contains(&"ZZZZZZ".to_string()));
}

#[test]
fn delete_key_cases() {
    let mut t = table();
    assert_eq!(t.delete_key(&"ABCDEF".to_string()), Ok(()));
    assert!(!t.contains(&"ABCDEF".to_string()));
    assert_eq!(t.delete_key(&"ABCDEF".to_string()), Err("No key found for the given ID".to_string()));
    assert_eq!(t.len(), 2);
}

#[test]
fn edit_key_availability_only() {
    let mut t = table();
    let r = t.edit_key("ABCDEF".to_string(), EditOptions { avail: Some(false), id: None });
    assert!(matches!(r, Ok(None)));
    assert!(!t.get(&"ABCDEF".to_string()).unwrap().available);
}

#[test]
fn edit_key_rename_moves_the_entry() {
    let mut t = table();
    let r = t.edit_key("ABCDEF".to_string(), EditOptions { avail: None, id: Some("ZYXWVU".to_string()) });
    match r {
        Ok(Some(mv)) => {
            assert_eq!(mv.from, "ABCDEF");
            assert_eq!(mv.to, "ZYXWVU");
        }
        _ => panic!("expected a move"),
    }
    assert!(!t.contains(&"ABCDEF".to_string()));
    assert!(t.get(&"ZYXWVU".to_string()).unwrap().available);
    assert_eq!(t.len(), 3);
}

#[test]
fn edit_key_same_id_is_no_move() {
    let mut t = table();
    let r = t.edit_key("GHIJKL".to_string(), EditOptions { avail: Some(true), id: Some("GHIJKL".to_string()) });
    assert!(matches!(r, Ok(None)));
    assert!(t.get(&"GHIJKL".to_string()).unwrap().available);
}

#[test]
fn edit_key_errors() {
    let mut t = table();
    let r = t.edit_key("NOPE00".to_string(), EditOptions { avail: Some(true), id: None });
    assert!(matches!(r, Err(ref e) if e == "No key found for the given ID"));
    let r = t.edit_key("ABCDEF".to_string(), EditOptions { avail: Some(false), id: Some("abc".to_string()) });
    assert!(matches!(r, Err(ref e) if e == "ID must be 6 uppercase A-Z letters."));
    // the availability change is kept under the old id
    let k = t.get(&"ABCDEF".to_string()).unwrap();
    assert!(!k.available);
    assert_eq!(t.len(), 3);
}

#[test]
fn decode_available_keys_ok() {
    let mut t = table();
    t.set_body(&"ABCDEF".to_string(), "ERERERERERERERERERERERERERERERERERERERERERE=".to_string());
    t.set_body(&"MNOPQR".to_string(), "IiIiIiIiIiIiIiIiIiIiIiIiIiIiIiIiIiIiIiIiIiI=".to_string());
    let mut keys = t.decode_available_keys().unwrap();
    keys.sort();
    assert_eq!(keys, vec![("ABCDEF".to_string(), [0x11u8; 32]), ("MNOPQR".to_string(), [0x22u8; 32])]);
}

#[test]
fn decode_available_keys_refuses_a_short_key() {
    let mut t = KeyTable::new();
    t.insert("ABCDEF".to_string(), key(true, "AAAA"));
    t.insert("GHIJKL".to_string(), key(false, "not base64 at all"));
    let e = t.decode_available_keys().unwrap_err();
    assert_eq!(
        e,
        "Fatal: ABCDEF key is not 32 bytes long. This should never happen. Please report this bug at GitHub issue and delete this key."
    );
}

#[test]
fn decode_available_keys_refuses_bad_base64() {
    let mut t = KeyTable::new();
    t.insert("ABCDEF".to_string(), key(true, "@@@"));
    let e = t.decode_available_keys().unwrap_err();
    assert!(e.starts_with("Fatal: Failed to decode ABCDEF key. Details: "));
    assert!(e.ends_with(". This should never happen. Please report this bug at GitHub issue and delete this key."));
}

#[test]
fn stored_key_clone_keeps_fields() {
    let k = key(true, "abc");
    let c = k.clone();
    assert_eq!(c.available, true);
    assert_eq!(c.body, "abc");
}

#[test]
fn secrets_are_shown_masked() {
    let mut t = table();
    t.set_body(&"GHIJKL".to_string(), "kept".to_string());
    t.show_secret(&"ABCDEF".to_string(), Some("ERERERER".to_string()));
    t.show_secret(&"GHIJKL".to_string(), None);
    t.show_secret(&"ZZZZZZ".to_string(), Some("x".to_string()));
    assert_eq!(t.get(&"ABCDEF".to_string()).unwrap().body, "ERER...");
    assert!(t.get(&"ABCDEF".to_string()).unwrap().available);
    assert_eq!(t.get(&"GHIJKL".to_string()).unwrap().body, "kept");
    assert!(!t.contains(&"ZZZZZZ".to_string()));
}
