use vetkeys_timelock::keys::{decryption_key_answer, key_service_answer};
use vetkeys_timelock::text::bytes_equal;
use vetkeys_timelock::timelock::{
    create_timelock_message, generate_timelock_identity, generate_unique_id, get_my_timelocks,
    get_timelock_content, get_timelock_decryption_key, get_timelock_identity, update_timelock_content,
    TimelockStore,
};
use vetkeys_timelock::types::TimelockError;

const NOW: u64 = 1_700_000_000;

fn alice() -> Vec<u8> {
    vec![1, 2, 3, 4]
}

fn bob() -> Vec<u8> {
    vec![9, 8, 7]
}

fn create(store: &mut TimelockStore, content: &str, unlock: u64, title: &str, who: &[u8]) -> Result<String, TimelockError> {
    create_timelock_message(store, content.to_string(), unlock, title.to_string(), who, NOW)
}

#[test]
fn scenario_secret_note_released_after_unlock() {
    let mut store = TimelockStore::new();
    let id = create(&mut store, "secret", NOW + 3600, "My Note", &alice()).unwrap();
    assert_eq!(get_timelock_content(&store, &id, &bob()), Err(TimelockError::AccessDenied));
    assert_eq!(
        get_timelock_decryption_key(&store, &id, &alice(), NOW + 1),
        Err(TimelockError::NotYetUnlockable)
    );
    let identity = get_timelock_decryption_key(&store, &id, &alice(), NOW + 3601).unwrap();
    assert_eq!(identity, format!("timelock_{}", id));
    assert_eq!(decryption_key_answer(Ok(vec![0xab, 0x01])), Ok("ab01".to_string()));
}

#[test]
fn scenario_empty_content_stores_nothing() {
    let mut store = TimelockStore::new();
    assert_eq!(create(&mut store, "", NOW + 10, "t", &alice()), Err(TimelockError::EmptyContent));
    assert!(get_my_timelocks(&store, &alice(), NOW).is_empty());
}

#[test]
fn create_succeeds_with_fresh_ids() {
    let mut store = TimelockStore::new();
    let a = create(&mut store, "one", NOW + 5, "first", &alice()).unwrap();
    let b = create(&mut store, "two", NOW + 5, "second", &alice()).unwrap();
    let c = create(&mut store, "three", NOW + 5, "third", &alice()).unwrap();
    assert_ne!(a, b);
    assert_ne!(a, c);
    assert_ne!(b, c);
    assert!(b.starts_with(&a));
    assert_eq!(get_my_timelocks(&store, &alice(), NOW).len(), 3);
}

#[test]
fn create_id_is_made_of_prefix_principal_and_time() {
    let mut store = TimelockStore::new();
    let id = create(&mut store, "x", NOW + 5, "t", &[4]).unwrap();
    assert_eq!(id, "timelock_2vxsx-fae_1700000000");
    assert_eq!(generate_unique_id("timelock", &[4], 42), "timelock_2vxsx-fae_42");
}

#[test]
fn create_rejects_unlock_at_or_before_now() {
    let mut store = TimelockStore::new();
    assert_eq!(create(&mut store, "c", NOW, "t", &alice()), Err(TimelockError::InvalidUnlockTime));
    assert_eq!(create(&mut store, "c", NOW - 1, "t", &alice()), Err(TimelockError::InvalidUnlockTime));
    assert_eq!(create(&mut store, "", 0, "", &alice()), Err(TimelockError::InvalidUnlockTime));
    assert!(create(&mut store, "c", NOW + 1, "t", &alice()).is_ok());
}

#[test]
fn create_rejects_blank_content_and_title() {
    let mut store = TimelockStore::new();
    assert_eq!(create(&mut store, " \t\n ", NOW + 5, "t", &alice()), Err(TimelockError::EmptyContent));
    assert_eq!(create(&mut store, "", NOW + 5, "", &alice()), Err(TimelockError::EmptyContent));
    assert_eq!(create(&mut store, "c", NOW + 5, "   ", &alice()), Err(TimelockError::EmptyTitle));
    assert!(get_my_timelocks(&store, &alice(), NOW).is_empty());
}

#[test]
fn create_trims_title_and_keeps_content() {
    let mut store = TimelockStore::new();
    let id = create(&mut store, "  body  ", NOW + 5, "  My Note  ", &alice()).unwrap();
    let list = get_my_timelocks(&store, &alice(), NOW);
    assert_eq!(list[0].title, "My Note");
    assert_eq!(get_timelock_content(&store, &id, &alice()), Ok("  body  ".to_string()));
}

#[test]
fn release_identity_is_prefixed_id() {
    assert_eq!(generate_timelock_identity("abc"), "timelock_abc");
    assert_eq!(generate_timelock_identity(""), "timelock_");
}

#[test]
fn release_identity_is_stable() {
    let mut store = TimelockStore::new();
    let id = create(&mut store, "c", NOW + 5, "t", &alice()).unwrap();
    let first = get_timelock_identity(&store, &id, &alice());
    let second = get_timelock_identity(&store, &id, &alice());
    assert_eq!(first, second);
    assert_eq!(first, Ok(format!("timelock_{}", id)));
}

#[test]
fn non_creator_is_denied_everywhere() {
    let mut store = TimelockStore::new();
    let id = create(&mut store, "c", NOW + 5, "t", &alice()).unwrap();
    assert_eq!(get_timelock_content(&store, &id, &bob()), Err(TimelockError::AccessDenied));
    assert_eq!(get_timelock_identity(&store, &id, &bob()), Err(TimelockError::AccessDenied));
    assert_eq!(
        update_timelock_content(&mut store, &id, "evil".to_string(), &bob()),
        Err(TimelockError::AccessDenied)
    );
    assert_eq!(
        get_timelock_decryption_key(&store, &id, &bob(), NOW + 100),
        Err(TimelockError::AccessDenied)
    );
    assert_eq!(get_timelock_content(&store, &id, &alice()), Ok("c".to_string()));
}

#[test]
fn unknown_id_is_not_found() {
    let mut store = TimelockStore::new();
    let missing = "timelock_none".to_string();
    assert_eq!(get_timelock_content(&store, &missing, &alice()), Err(TimelockError::NotFound));
    assert_eq!(get_timelock_identity(&store, &missing, &alice()), Err(TimelockError::NotFound));
    assert_eq!(
        update_timelock_content(&mut store, &missing, "x".to_string(), &alice()),
        Err(TimelockError::NotFound)
    );
    assert_eq!(
        get_timelock_decryption_key(&store, &missing, &alice(), NOW),
        Err(TimelockError::NotFound)
    );
}

#[test]
fn decryption_key_gate_at_the_boundary() {
    let mut store = TimelockStore::new();
    let id = create(&mut store, "c", NOW + 60, "t", &alice()).unwrap();
    assert_eq!(
        get_timelock_decryption_key(&store, &id, &alice(), NOW + 59),
        Err(TimelockError::NotYetUnlockable)
    );
    assert!(get_timelock_decryption_key(&store, &id, &alice(), NOW + 60).is_ok());
    assert!(get_timelock_decryption_key(&store, &id, &alice(), NOW + 61).is_ok());
}

#[test]
fn decryption_key_answer_passes_service_failure() {
    assert_eq!(
        decryption_key_answer(Err("unavailable".to_string())),
        Err(TimelockError::KeyServiceError("unavailable".to_string()))
    );
    assert_eq!(decryption_key_answer(Ok(vec![])), Ok(String::new()));
}

#[test]
fn listing_of_unknown_principal_is_empty() {
    let mut store = TimelockStore::new();
    assert!(get_my_timelocks(&store, &bob(), NOW).is_empty());
    create(&mut store, "c", NOW + 5, "t", &alice()).unwrap();
    assert!(get_my_timelocks(&store, &bob(), NOW).is_empty());
}

#[test]
fn listing_keeps_creation_order_and_expiry() {
    let mut store = TimelockStore::new();
    let a = create(&mut store, "c", NOW + 10, "a", &alice()).unwrap();
    create(&mut store, "c", NOW + 10, "b", &bob()).unwrap();
    let c = create(&mut store, "c", NOW + 30, "c", &alice()).unwrap();
    let list = get_my_timelocks(&store, &alice(), NOW + 20);
    assert_eq!(list.len(), 2);
    assert_eq!(list[0].id, a);
    assert_eq!(list[0].title, "a");
    assert_eq!(list[0].unlock_timestamp, NOW + 10);
    assert!(list[0].is_expired);
    assert_eq!(list[1].id, c);
    assert!(!list[1].is_expired);
    assert_eq!(get_my_timelocks(&store, &bob(), NOW).len(), 1);
}

#[test]
fn content_reads_back_latest_update() {
    let mut store = TimelockStore::new();
    let id = create(&mut store, "placeholder", NOW + 5, "t", &alice()).unwrap();
    assert_eq!(update_timelock_content(&mut store, &id, "cipher1".to_string(), &alice()), Ok(true));
    assert_eq!(get_timelock_content(&store, &id, &alice()), Ok("cipher1".to_string()));
    assert_eq!(update_timelock_content(&mut store, &id, "cipher2".to_string(), &alice()), Ok(true));
    assert_eq!(get_timelock_content(&store, &id, &alice()), Ok("cipher2".to_string()));
    assert_eq!(get_my_timelocks(&store, &alice(), NOW)[0].title, "t");
}

#[test]
fn key_service_answer_encodes_key_and_caller() {
    let ok = key_service_answer(Ok(vec![0xde, 0xad, 0x0f]), &[4]).unwrap();
    assert_eq!(ok.key_hex, "dead0f");
    assert_eq!(ok.caller, "2vxsx-fae");
    let err = key_service_answer(Err("boom".to_string()), &[4]).unwrap_err();
    assert_eq!(err.error, "boom");
}

#[test]
fn bytes_equal_compares_contents() {
    assert!(bytes_equal(&[1, 2], &[1, 2]));
    assert!(!bytes_equal(&[1, 2], &[1, 3]));
    assert!(!bytes_equal(&[1], &[1, 2]));
    assert!(bytes_equal(&[], &[]));
}
