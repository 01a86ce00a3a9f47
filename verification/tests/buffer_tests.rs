use txkv::buffer::StagedSlot;
use txkv::buffer::WriteBuffer;

#[test]
fn buffer_lookup_last_staged_wins() {
    let mut b = WriteBuffer::new();
    assert!(b.is_empty());
    b.stage_put("k", b"one");
    b.stage_put("k", b"two");
    match b.lookup("k") {
        StagedSlot::Written(v) => assert_eq!(b"two".to_vec(), v),
        _ => panic!("expected a staged value"),
    }
    b.stage_del("k");
    assert!(matches!(b.lookup("k"), StagedSlot::Deleted));
    assert!(matches!(b.lookup("other"), StagedSlot::Untouched));
    assert!(!b.is_empty());
}

#[test]
fn buffer_collapses_to_one_entry_per_key() {
    let mut b = WriteBuffer::new();
    b.stage_put("a", b"1");
    b.stage_put("b", b"2");
    b.stage_del("a");
    b.stage_put("b", b"3");
    let mut entries = b.collapsed();
    entries.sort_by(|x, y| x.0.cmp(&y.0));
    assert_eq!(2, entries.len());
    assert_eq!("a", entries[0].0);
    assert_eq!(None, entries[0].1);
    assert_eq!("b", entries[1].0);
    assert_eq!(Some(b"3".to_vec()), entries[1].1);
}

#[test]
fn buffer_duplicate_stages_the_same() {
    let mut b = WriteBuffer::new();
    b.stage_put("k", b"v");
    b.stage_del("gone");
    let copy = b.duplicate();
    match copy.lookup("k") {
        StagedSlot::Written(v) => assert_eq!(b"v".to_vec(), v),
        _ => panic!("expected a staged value"),
    }
    assert!(matches!(copy.lookup("gone"), StagedSlot::Deleted));
}
