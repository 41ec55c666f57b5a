use media_relay::media_manager::{MediaId, MediaManager};
use media_relay::storage::{Memory, Storage};

fn manager() -> MediaManager<Memory> {
    MediaManager::new(Memory::default())
}

#[test]
fn store_then_retrieve_returns_payload() {
    let mut mm = manager();
    let payload = vec![1u8, 2, 3, 4, 5];
    let handle = mm
        .store(payload.clone(), String::from("image/png"))
        .expect("a fresh handle");
    let (bytes, content_type) = mm.retrieve(handle).expect("just stored");
    assert_eq!(bytes, payload);
    assert_eq!(content_type, "image/png");
    assert!(mm.contains(handle));
}

#[test]
fn identical_payloads_get_distinct_handles_and_one_object() {
    let mut mm = manager();
    let payload = b"AAAA".to_vec();
    let h1 = mm
        .store(payload.clone(), String::from("image/png"))
        .expect("a fresh handle");
    let h2 = mm
        .store(payload.clone(), String::from("image/png"))
        .expect("a fresh handle");
    assert_ne!(h1, h2);
    assert_eq!(mm.retrieve(h1).expect("still bound").0, payload);
    assert_eq!(mm.retrieve(h2).expect("just stored").0, payload);

    // The storage itself collapses byte-identical payloads to one reference.
    let mut memory = Memory::default();
    let r1 = memory.store(payload.clone(), String::from("image/png"));
    let r2 = memory.store(payload.clone(), String::from("image/png"));
    assert_eq!(r1, r2);
}

#[test]
fn unknown_handle_is_absent() {
    let mm = manager();
    let never_stored = MediaId(0xdead_beef_dead_beef);
    assert!(mm.retrieve(never_stored).is_none());
    assert!(!mm.contains(never_stored));
}

#[test]
fn delete_revokes_and_is_idempotent() {
    let mut mm = manager();
    let handle = mm
        .store(b"payload".to_vec(), String::from("image/gif"))
        .expect("a fresh handle");
    assert!(mm.contains(handle));
    mm.delete(handle);
    assert!(!mm.contains(handle));
    assert!(mm.retrieve(handle).is_none());
    // A second delete of the same handle is a harmless no-op.
    mm.delete(handle);
    assert!(!mm.contains(handle));
}

#[test]
fn scenario_two_uploads_one_delete() {
    let mut mm = manager();
    let h1 = mm
        .store(b"AAAA".to_vec(), String::from("image/png"))
        .expect("a fresh handle");
    let h2 = mm
        .store(b"AAAA".to_vec(), String::from("image/png"))
        .expect("a fresh handle");
    assert_ne!(h1, h2);
    assert_eq!(mm.retrieve(h1).expect("bound").0, b"AAAA".to_vec());
    assert_eq!(mm.retrieve(h2).expect("bound").0, b"AAAA".to_vec());
    mm.delete(h1);
    assert!(!mm.contains(h1));
    assert!(mm.contains(h2));
}

#[test]
fn many_stores_yield_unique_retrievable_handles() {
    let mut mm = manager();
    let mut seen = std::collections::HashSet::new();
    for i in 0..1000u32 {
        let payload = i.to_be_bytes().to_vec();
        let handle = mm
            .store(payload.clone(), String::from("image/png"))
            .expect("a fresh handle");
        assert!(seen.insert(handle.0), "handle reused");
        assert_eq!(mm.retrieve(handle).expect("just stored").0, payload);
    }
    // All thousand uploads stay independently retrievable.
    assert_eq!(seen.len(), 1000);
}

#[test]
fn storage_retrieve_and_delete() {
    let mut memory = Memory::default();
    let reference = memory.store(b"blob".to_vec(), String::from("image/png"));
    assert!(Storage::<u64>::contains(&memory, &reference));
    let (bytes, content_type) = memory.retrieve(&reference).expect("stored");
    assert_eq!(bytes, b"blob".to_vec());
    assert_eq!(content_type, "image/png");
    assert!(memory.retrieve(&(reference ^ 1)).is_none());
    memory.delete(&reference);
    assert!(!Storage::<u64>::contains(&memory, &reference));
    assert!(memory.retrieve(&reference).is_none());
}

#[test]
fn hex_token_has_fixed_width() {
    assert_eq!(MediaId(0xff).to_hex(), "00000000000000ff");
    assert_eq!(MediaId(0).to_hex(), "0000000000000000");
    assert_eq!(MediaId(u64::MAX).to_hex(), "ffffffffffffffff");
    assert_eq!(MediaId(0x0123_4567_89ab_cdef).to_hex(), "0123456789abcdef");
}

#[test]
fn hex_token_round_trips() {
    for value in [0u64, 1, 0xff, 0xdead_beef, u64::MAX, 0x0123_4567_89ab_cdef] {
        let token = MediaId(value).to_hex();
        assert_eq!(MediaId::from_hex(&token), Some(MediaId(value)));
    }
}

#[test]
fn hex_parse_accepts_upper_case() {
    assert_eq!(
        MediaId::from_hex("0123456789ABCDEF"),
        Some(MediaId(0x0123_4567_89ab_cdef))
    );
}

#[test]
fn hex_parse_rejects_malformed_tokens() {
    assert_eq!(MediaId::from_hex(""), None);
    assert_eq!(MediaId::from_hex("00000000000000f"), None);
    assert_eq!(MediaId::from_hex("00000000000000fff"), None);
    assert_eq!(MediaId::from_hex("00000000000000fg"), None);
    assert_eq!(MediaId::from_hex("00000000000000 f"), None);
    assert_eq!(MediaId::from_hex("000000000000000é"), None);
}
