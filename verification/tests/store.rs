use resp_store::server::store::errors::StoreError;
use resp_store::server::store::file::{empty_store_file_bytes, hex_to_bytes, EMPTY};
use resp_store::server::store::{KVStore, KVStoreValue, Store};

#[test]
fn a_text_is_read_until_it_expires() {
    let mut store = KVStore::new();
    assert_eq!(store.read_at("foo".to_string(), 1000), None);
    assert_eq!(store.write_at("foo".to_string(), "bar".to_string(), Some(50), 1000), Ok(()));
    assert_eq!(store.read_at("foo".to_string(), 1000), Some(&"bar".to_string()));
    assert_eq!(store.read_at("foo".to_string(), 1049), Some(&"bar".to_string()));
    assert_eq!(store.read_at("foo".to_string(), 1050), None);
    assert_eq!(store.read_at("foo".to_string(), 1060), None);
}

#[test]
fn reads_after_expiry_all_find_nothing() {
    let mut store = KVStore::new();
    store.write_at("k".to_string(), "v".to_string(), Some(5), 10).unwrap();
    store.write_at("other".to_string(), "w".to_string(), None, 10).unwrap();
    for now in [15u64, 16, 100, u64::MAX] {
        assert_eq!(store.read_at("k".to_string(), now), None);
        assert_eq!(store.read_at("other".to_string(), now), Some(&"w".to_string()));
    }
}

#[test]
fn a_write_takes_the_place_of_what_stood_there() {
    let mut store = KVStore::new();
    store.write_at("k".to_string(), "old".to_string(), Some(5), 10).unwrap();
    store.write_at("k".to_string(), "new".to_string(), None, 12).unwrap();
    assert_eq!(store.read_at("k".to_string(), 1_000_000), Some(&"new".to_string()));
    store.write_at("k".to_string(), "newer".to_string(), Some(1), 20).unwrap();
    assert_eq!(store.read_at("k".to_string(), 20), Some(&"newer".to_string()));
    assert_eq!(store.read_at("k".to_string(), 21), None);
}

#[test]
fn an_expiry_past_the_end_of_time_never_comes() {
    let mut store = KVStore::new();
    store.write_at("k".to_string(), "v".to_string(), Some(u64::MAX), u64::MAX).unwrap();
    assert_eq!(store.read_at("k".to_string(), u64::MAX), Some(&"v".to_string()));
    store.write_at("z".to_string(), "v".to_string(), Some(0), 7).unwrap();
    assert_eq!(store.read_at("z".to_string(), 7), None);
}

#[test]
fn the_clock_serves_reads_and_writes() {
    let mut store = KVStore::new();
    assert_eq!(store.try_write("a".to_string(), "1".to_string(), None), Ok(()));
    assert_eq!(store.try_write("b".to_string(), "2".to_string(), Some(3_600_000)), Ok(()));
    assert_eq!(store.try_write("c".to_string(), "3".to_string(), Some(0)), Ok(()));
    assert_eq!(store.try_read("a".to_string()), Some(&"1".to_string()));
    assert_eq!(store.try_read("b".to_string()), Some(&"2".to_string()));
    assert_eq!(store.try_read("c".to_string()), None);
    assert_eq!(store.try_read("d".to_string()), None);
}

#[test]
fn entries_know_their_expiry() {
    let entry = KVStoreValue::new("v".to_string(), Some(10), 100);
    assert!(!entry.is_expired(109));
    assert!(entry.is_expired(110));
    assert_eq!(entry.to_val(109), Some(&"v".to_string()));
    assert_eq!(entry.to_val(110), None);
    let forever = KVStoreValue::new("v".to_string(), None, 100);
    assert!(!forever.is_expired(u64::MAX));
}

#[test]
fn a_new_store_is_empty() {
    let store = Store::new();
    assert_eq!(store.kv_store.read_at("k".to_string(), 0), None);
    assert!(store.stream_store.try_read("k".to_string()).is_none());
}

#[test]
fn store_errors_have_their_texts() {
    assert_eq!(StoreError::ReadFailed.to_string(), "Store Error: Read failed!");
    assert_eq!(StoreError::WriteFailed.to_string(), "Store Error: Write failed!");
}

#[test]
fn hexadecimal_digits_two_for_each_byte() {
    assert_eq!(hex_to_bytes(b""), Some(vec![]));
    assert_eq!(hex_to_bytes(b"00ff10Ab"), Some(vec![0x00, 0xff, 0x10, 0xab]));
    assert_eq!(hex_to_bytes(b"+f"), Some(vec![0x0f]));
    assert_eq!(hex_to_bytes(b"0g"), None);
    assert_eq!(hex_to_bytes(b"-1"), None);
    assert_eq!(hex_to_bytes(b"f+"), None);
    assert_eq!(hex_to_bytes(b"00zz00"), None);
}

#[test]
fn the_empty_snapshot() {
    let bytes = empty_store_file_bytes();
    assert_eq!(bytes.len(), 88);
    assert_eq!(EMPTY.len(), 176);
    assert_eq!(&bytes[..9], b"REDIS0011");
    assert_eq!(bytes[9], 0xfa);
    assert_eq!(&bytes[79..], &[0xff, 0xf0, 0x6e, 0x3b, 0xfe, 0xc0, 0xff, 0x5a, 0xa2]);
}

#[test]
fn pairs_of_digits_are_read_as_the_standard_library_reads_them() {
    for a in 0u8..128 {
        for b in 0u8..128 {
            let pair = [a, b];
            let expected = std::str::from_utf8(&pair)
                .ok()
                .and_then(|s| u8::from_str_radix(s, 16).ok());
            assert_eq!(hex_to_bytes(&pair), expected.map(|v| vec![v]), "{:?}", pair);
        }
    }
}
