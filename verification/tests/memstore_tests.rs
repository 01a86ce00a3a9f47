use txkv::conformance;
use txkv::kv::Read;
use txkv::kv::Store;
use txkv::kv::Write;
use txkv::memstore::MemStore;

#[test]
fn fresh_store_reads_absent() {
    let s = MemStore::new();
    assert!(!s.has("foo").unwrap());
    assert_eq!(None, s.get("foo").unwrap());
    assert!(!s.has("").unwrap());
}

#[test]
fn scenario_put_has_get() {
    let mut s = MemStore::new();
    s.put("foo", b"bar").unwrap();
    assert!(s.has("foo").unwrap());
    assert_eq!(Some(b"bar".to_vec()), s.get("foo").unwrap());

    s.put("foo", b"baz").unwrap();
    assert_eq!(Some(b"baz".to_vec()), s.get("foo").unwrap());

    assert!(!s.has("baz").unwrap());
    s.put("baz", b"bat").unwrap();
    assert!(s.has("baz").unwrap());
    assert_eq!(Some(b"bat".to_vec()), s.get("baz").unwrap());
}

#[test]
fn last_write_wins() {
    let mut s = MemStore::new();
    s.put("k", b"v1").unwrap();
    s.put("k", b"v2").unwrap();
    assert_eq!(Some(b"v2".to_vec()), s.get("k").unwrap());
}

#[test]
fn round_trip_empty_value() {
    let mut s = MemStore::new();
    s.put("empty", b"").unwrap();
    assert!(s.has("empty").unwrap());
    assert_eq!(Some(Vec::new()), s.get("empty").unwrap());
}

#[test]
fn round_trip_non_utf8_value() {
    let mut s = MemStore::new();
    let raw = vec![0xffu8, 0xfe, 0x00, 0x80, 0x01];
    s.put("raw", &raw).unwrap();
    assert_eq!(Some(raw), s.get("raw").unwrap());
}

#[test]
fn del_visible_in_own_transaction_only() {
    let mut s = MemStore::new();
    s.put("k", b"v").unwrap();

    let rt = s.read().unwrap();
    let mut wt = s.write().unwrap();
    wt.del("k").unwrap();
    assert!(!wt.has("k").unwrap());
    assert_eq!(None, wt.get("k").unwrap());
    assert!(rt.has("k").unwrap());
    assert_eq!(Some(b"v".to_vec()), rt.get("k").unwrap());

    s.commit(wt).unwrap();
    assert!(!s.has("k").unwrap());
    assert!(rt.has("k").unwrap());
}

#[test]
fn rollback_restores_state() {
    let mut s = MemStore::new();
    s.put("kept", b"old").unwrap();

    let mut wt = s.write().unwrap();
    wt.put("kept", b"changed").unwrap();
    wt.put("fresh", b"new").unwrap();
    wt.del("kept").unwrap();
    s.rollback(wt).unwrap();

    assert_eq!(Some(b"old".to_vec()), s.get("kept").unwrap());
    assert!(!s.has("fresh").unwrap());
}

#[test]
fn staged_mutations_collapse_to_final() {
    let mut s = MemStore::new();
    s.put("k2", b"v2").unwrap();

    let mut wt = s.write().unwrap();
    wt.put("k2", b"overwrite").unwrap();
    wt.del("k2").unwrap();
    wt.put("k2", b"final").unwrap();
    s.commit(wt).unwrap();
    assert_eq!(Some(b"final".to_vec()), s.get("k2").unwrap());
}

#[test]
fn pending_writes_invisible_before_commit() {
    let mut s = MemStore::new();
    let mut wt = s.write().unwrap();
    wt.put("k", b"pending").unwrap();
    assert!(!s.has("k").unwrap());
    assert_eq!(Some(b"pending".to_vec()), wt.get("k").unwrap());
    s.commit(wt).unwrap();
    assert_eq!(Some(b"pending".to_vec()), s.get("k").unwrap());
}

#[test]
fn empty_commit_and_rollback_succeed() {
    let mut s = MemStore::new();
    let wt = s.write().unwrap();
    s.commit(wt).unwrap();
    let wt = s.write().unwrap();
    s.rollback(wt).unwrap();
}

#[test]
fn as_read_sees_pending() {
    let mut s = MemStore::new();
    s.put("k2", b"v2").unwrap();
    let mut wt = s.write().unwrap();
    wt.put("k2", b"new value").unwrap();
    let rt = wt.as_read();
    assert!(rt.has("k2").unwrap());
    assert_eq!(Some(b"new value".to_vec()), rt.get("k2").unwrap());
}

#[test]
fn conformance_store() {
    let mut s = MemStore::new();
    conformance::store(&mut s).unwrap();
}

#[test]
fn conformance_read_transaction() {
    let mut s = MemStore::new();
    conformance::read_transaction(&mut s).unwrap();
}

#[test]
fn conformance_write_transaction() {
    let mut s = MemStore::new();
    conformance::write_transaction(&mut s).unwrap();
}

#[test]
fn conformance_del_isolation() {
    let mut s = MemStore::new();
    conformance::del_isolation(&mut s).unwrap();
}
