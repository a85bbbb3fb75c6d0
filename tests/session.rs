use zero2prod::session::{decode_record, encode_record, SessionRecord, StoreError};
use zero2prod::session_store::{load_outcome, save_command, session_key, MemoryStore};

const NOW: i64 = 1_700_000_000;

fn record(id: u128, user: &str, expiry: i64) -> SessionRecord {
    SessionRecord {
        id,
        data: vec![
            ("user_id".to_string(), user.to_string()),
            ("counter".to_string(), "3".to_string()),
        ],
        expiry,
    }
}

fn same(a: &SessionRecord, b: &SessionRecord) -> bool {
    a.id == b.id && a.data == b.data && a.expiry == b.expiry
}

#[test]
fn the_stored_form_has_a_fixed_layout() {
    let r = SessionRecord {
        id: 1,
        data: vec![("k".to_string(), "vé".to_string())],
        expiry: -1,
    };
    let bytes = encode_record(&r).unwrap();
    let mut expected = vec![1u8];
    expected.extend_from_slice(&1u128.to_le_bytes());
    expected.extend_from_slice(&(-1i64).to_le_bytes());
    expected.extend_from_slice(&1u32.to_le_bytes());
    expected.extend_from_slice(&1u32.to_le_bytes());
    expected.extend_from_slice(b"k");
    expected.extend_from_slice(&3u32.to_le_bytes());
    expected.extend_from_slice("vé".as_bytes());
    assert_eq!(bytes, expected);
}

#[test]
fn a_record_reads_back_from_its_stored_form() {
    let r = record(77, "alice", NOW + 600);
    let bytes = encode_record(&r).unwrap();
    let back = decode_record(&bytes).unwrap();
    assert!(same(&back, &r));
    let empty = SessionRecord { id: 0, data: vec![], expiry: 0 };
    let back = decode_record(&encode_record(&empty).unwrap()).unwrap();
    assert!(same(&back, &empty));
}

#[test]
fn damaged_stored_forms_are_refused() {
    let bytes = encode_record(&record(77, "alice", NOW + 600)).unwrap();
    for cut in 0..bytes.len() {
        assert!(matches!(decode_record(&bytes[..cut]), Err(StoreError::Decode)));
    }
    let mut longer = bytes.clone();
    longer.push(0);
    assert!(matches!(decode_record(&longer), Err(StoreError::Decode)));
    let mut other_version = bytes.clone();
    other_version[0] = 2;
    assert!(matches!(decode_record(&other_version), Err(StoreError::Decode)));
    let mut bad_utf8 = bytes.clone();
    let last = bad_utf8.len() - 1;
    bad_utf8[last] = 0xff;
    assert!(matches!(decode_record(&bad_utf8), Err(StoreError::Decode)));
}

#[test]
fn save_then_load_returns_the_saved_record() {
    let mut store = MemoryStore::new();
    let r = record(5, "alice", NOW + 600);
    store.save(&r).unwrap();
    let loaded = store.load(5, NOW).unwrap().unwrap();
    assert!(same(&loaded, &r));
    assert!(store.load(6, NOW).unwrap().is_none());
}

#[test]
fn save_replaces_the_record_of_the_same_id() {
    let mut store = MemoryStore::new();
    store.save(&record(5, "alice", NOW + 600)).unwrap();
    let newer = record(5, "bob", NOW + 900);
    store.save(&newer).unwrap();
    assert!(same(&store.load(5, NOW).unwrap().unwrap(), &newer));
}

#[test]
fn delete_then_load_finds_nothing() {
    let mut store = MemoryStore::new();
    store.save(&record(5, "alice", NOW + 600)).unwrap();
    store.delete(5).unwrap();
    assert!(store.load(5, NOW).unwrap().is_none());
    assert!(!store.holds_key(5));
    assert!(store.delete(5).is_ok());
}

#[test]
fn an_expired_record_is_not_found_though_its_key_remains() {
    let mut store = MemoryStore::new();
    store.save(&record(5, "alice", NOW)).unwrap();
    assert!(store.holds_key(5));
    assert!(store.load(5, NOW).unwrap().is_none());
    assert!(store.load(5, NOW + 1).unwrap().is_none());
    assert!(store.load(5, NOW - 1).unwrap().is_some());
}

#[test]
fn saves_of_distinct_ids_do_not_interfere() {
    let mut one = MemoryStore::new();
    let mut two = MemoryStore::new();
    let a = record(1, "alice", NOW + 600);
    let b = record(2, "bob", NOW + 600);
    one.save(&a).unwrap();
    one.save(&b).unwrap();
    two.save(&b).unwrap();
    two.save(&a).unwrap();
    for store in [&one, &two] {
        assert!(same(&store.load(1, NOW).unwrap().unwrap(), &a));
        assert!(same(&store.load(2, NOW).unwrap().unwrap(), &b));
    }
}

#[test]
fn save_and_delete_of_one_id_end_in_the_later_state() {
    let a = record(1, "alice", NOW + 600);
    let mut save_last = MemoryStore::new();
    save_last.delete(1).unwrap();
    save_last.save(&a).unwrap();
    assert!(same(&save_last.load(1, NOW).unwrap().unwrap(), &a));
    let mut delete_last = MemoryStore::new();
    delete_last.save(&a).unwrap();
    delete_last.delete(1).unwrap();
    assert!(delete_last.load(1, NOW).unwrap().is_none());
}

#[test]
fn an_unreachable_store_reports_a_backend_error() {
    let mut store = MemoryStore::new();
    store.save(&record(5, "alice", NOW + 600)).unwrap();
    store.set_available(false);
    assert!(matches!(store.load(5, NOW), Err(StoreError::Backend)));
    assert!(matches!(store.save(&record(6, "bob", NOW + 600)), Err(StoreError::Backend)));
    assert!(matches!(store.delete(5), Err(StoreError::Backend)));
    store.set_available(true);
    assert!(store.load(5, NOW).unwrap().is_some());
    assert!(store.load(6, NOW).unwrap().is_none());
}

#[test]
fn a_save_command_carries_the_key_bytes_and_expiry() {
    let r = record(9, "alice", NOW + 600);
    let write = save_command(&r).unwrap();
    assert_eq!(write.id, 9);
    assert_eq!(write.expire_at, (NOW + 600) as u64);
    assert_eq!(write.bytes, encode_record(&r).unwrap());
    assert_eq!(session_key(9), "00000000-0000-0000-0000-000000000009");
}

#[test]
fn load_outcome_decides_from_what_the_cache_answered() {
    let r = record(9, "alice", NOW + 600);
    let bytes = encode_record(&r).unwrap();
    assert!(same(&load_outcome(9, Ok(Some(&bytes)), NOW).unwrap().unwrap(), &r));
    assert!(load_outcome(9, Ok(None), NOW).unwrap().is_none());
    assert!(load_outcome(9, Ok(Some(&bytes)), NOW + 600).unwrap().is_none());
    assert!(matches!(load_outcome(10, Ok(Some(&bytes)), NOW), Err(StoreError::Decode)));
    assert!(matches!(load_outcome(9, Ok(Some(&[1, 2, 3])), NOW), Err(StoreError::Decode)));
    assert!(matches!(load_outcome(9, Err(StoreError::Backend), NOW), Err(StoreError::Backend)));
}

#[test]
fn a_record_entry_is_found_by_key() {
    let r = record(9, "alice", NOW + 600);
    assert_eq!(r.get("user_id").unwrap(), "alice");
    assert_eq!(r.get("counter").unwrap(), "3");
    assert!(r.get("missing").is_none());
}

#[test]
fn insert_replaces_or_adds_one_entry() {
    let mut r = record(9, "alice", NOW + 600);
    r.insert("counter".to_string(), "4".to_string());
    assert_eq!(r.get("counter").unwrap(), "4");
    assert_eq!(r.get("user_id").unwrap(), "alice");
    assert_eq!(r.data.len(), 2);
    r.insert("theme".to_string(), "dark".to_string());
    assert_eq!(r.get("theme").unwrap(), "dark");
    assert_eq!(r.data.len(), 3);
    assert_eq!(r.id, 9);
    assert_eq!(r.expiry, NOW + 600);
}

#[test]
fn an_updated_record_saves_over_the_old_one() {
    let mut store = MemoryStore::new();
    store.save(&record(5, "alice", NOW + 600)).unwrap();
    let mut loaded = store.load(5, NOW).unwrap().unwrap();
    loaded.insert("counter".to_string(), "4".to_string());
    store.save(&loaded).unwrap();
    let again = store.load(5, NOW).unwrap().unwrap();
    assert_eq!(again.get("counter").unwrap(), "4");
}

#[test]
fn a_record_expiring_before_the_epoch_is_not_saved() {
    let mut store = MemoryStore::new();
    assert!(matches!(store.save(&record(5, "alice", -1)), Err(StoreError::Encode)));
    assert!(!store.holds_key(5));
    assert!(matches!(save_command(&record(5, "alice", -1)), Err(StoreError::Encode)));
}
