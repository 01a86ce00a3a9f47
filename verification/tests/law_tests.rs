use txkv::conformance;
use txkv::memstore::MemStore;

#[test]
fn law_unwritten_key_reads_absent() {
    let s = MemStore::new();
    let (h, g) = conformance::unwritten_key_reads_absent(&s, "never").unwrap();
    assert!(!h);
    assert_eq!(None, g);
}

#[test]
fn law_last_write_wins() {
    let mut s = MemStore::new();
    let g = conformance::last_write_wins(&mut s, "k", b"v1", b"v2").unwrap();
    assert_eq!(Some(b"v2".to_vec()), g);
}

#[test]
fn law_round_trip_plain() {
    let mut s = MemStore::new();
    let g = conformance::round_trip(&mut s, "k", b"plain").unwrap();
    assert_eq!(Some(b"plain".to_vec()), g);
}

#[test]
fn law_round_trip_empty() {
    let mut s = MemStore::new();
    let g = conformance::round_trip(&mut s, "k", b"").unwrap();
    assert_eq!(Some(Vec::new()), g);
}

#[test]
fn law_round_trip_non_utf8() {
    let mut s = MemStore::new();
    let raw = [0xffu8, 0x00, 0xfe, 0x80];
    let g = conformance::round_trip(&mut s, "k", &raw).unwrap();
    assert_eq!(Some(raw.to_vec()), g);
}

#[test]
fn law_rollback_leaves_state() {
    let mut s = MemStore::new();
    txkv::kv::Store::put(&mut s, "kept", b"before").unwrap();
    conformance::rollback_leaves_state(&mut s, "kept", b"after").unwrap();
    assert_eq!(
        Some(b"before".to_vec()),
        txkv::kv::Store::get(&s, "kept").unwrap()
    );
}

#[test]
fn law_overwrite_collapse() {
    let mut s = MemStore::new();
    let g = conformance::overwrite_collapse(&mut s, "k", b"first", b"second").unwrap();
    assert_eq!(Some(b"second".to_vec()), g);
}
