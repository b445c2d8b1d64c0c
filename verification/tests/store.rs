use blake2::{Blake2s128, Digest};
use reactrix_store::datastore::{entry_exists, DataStore, DataStoreError, MemoryDataStore};

#[test]
fn round_trip_returns_stored_bytes() {
    let mut store = MemoryDataStore::new();
    let data = vec![0xde, 0xad, 0xbe, 0xef, 0x00, 0x42];
    let hash = store.store(&data).expect("store must succeed");
    let back = store.retrieve(&hash).expect("retrieve must succeed");
    assert_eq!(back, data);
}

#[test]
fn hash_is_16_byte_blake2s() {
    let mut store = MemoryDataStore::new();
    let data = [0x01, 0x02, 0x03];
    let hash = store.store(&data).expect("store must succeed");
    let expected = Blake2s128::digest(&data).to_vec();
    assert_eq!(hash.len(), 16);
    assert_eq!(hash, expected);
}

#[test]
fn storing_same_bytes_twice_is_idempotent() {
    // Scenario: store [0x01, 0x02, 0x03], then the same bytes again: the
    // same hash comes back both times and the second write is no error.
    let mut store = MemoryDataStore::new();
    let data = [0x01, 0x02, 0x03];
    let h1 = store.store(&data).expect("first store must succeed");
    assert_eq!(store.blob_count(), 1);
    let h2 = store.store(&data).expect("duplicate store must succeed");
    assert_eq!(h1, h2);
    // No duplicate record was created.
    assert_eq!(store.blob_count(), 1);
    let back = store.retrieve(&h1).expect("retrieve must succeed");
    assert_eq!(back, data.to_vec());
}

#[test]
fn retrieve_of_unwritten_hash_is_no_record() {
    let store = MemoryDataStore::new();
    let never_written = [0u8; 16];
    let r = store.retrieve(&never_written);
    assert!(matches!(r, Err(DataStoreError::NoRecord)));
}

#[test]
fn differing_payload_under_existing_hash_is_a_collision() {
    // Genuine BLAKE2s collisions are not constructible, so the collision
    // check is exercised directly: `entry_exists` is handed a hash that
    // already stores different bytes.
    let mut store = MemoryDataStore::new();
    let original = vec![1, 2, 3];
    let hash = store.store(&original).expect("store must succeed");
    let different = vec![9, 9, 9];
    let prior = store.retrieve(&hash);
    let r = entry_exists(&hash, &different, prior);
    match r {
        Err(DataStoreError::Collision(s)) => assert_eq!(s, hex::encode(&hash)),
        other => panic!("expected a collision, got {:?}", other),
    }
    // The originally stored bytes are unchanged.
    let back = store.retrieve(&hash).expect("retrieve must succeed");
    assert_eq!(back, original);
}

#[test]
fn entry_exists_reports_duplicates_and_free_hashes() {
    let mut store = MemoryDataStore::new();
    let data = vec![7, 7, 7];
    let hash = store.store(&data).expect("store must succeed");
    let prior = store.retrieve(&hash);
    assert!(matches!(entry_exists(&hash, &data, prior), Ok(true)));
    let free = [0xffu8; 16];
    let prior = store.retrieve(&free);
    assert!(matches!(entry_exists(&free, &data, prior), Ok(false)));
}

#[test]
fn entry_exists_passes_backend_errors_through() {
    let r = entry_exists(&[1], &[2], Err(DataStoreError::Database("down".to_string())));
    match r {
        Err(DataStoreError::Database(s)) => assert_eq!(s, "down"),
        other => panic!("expected the database error back, got {:?}", other),
    }
}

#[test]
fn empty_blob_round_trips() {
    let mut store = MemoryDataStore::new();
    let data: Vec<u8> = Vec::new();
    let hash = store.store(&data).expect("store must succeed");
    assert_eq!(hash, Blake2s128::digest(&data).to_vec());
    let back = store.retrieve(&hash).expect("retrieve must succeed");
    assert_eq!(back, data);
}

#[test]
fn distinct_blobs_live_side_by_side() {
    let mut store = MemoryDataStore::new();
    let a = vec![1];
    let b = vec![2];
    let ha = store.store(&a).expect("store must succeed");
    let hb = store.store(&b).expect("store must succeed");
    assert_ne!(ha, hb);
    assert_eq!(store.blob_count(), 2);
    assert_eq!(store.retrieve(&ha).expect("a must be stored"), a);
    assert_eq!(store.retrieve(&hb).expect("b must be stored"), b);
}
