//! The conformance suite: backend-agnostic exercises of the `Store` contract,
//! written against the trait contracts alone, so that every backend meeting
//! the contract behaves identically. Each function walks one battery of
//! operations, proves every intermediate observation from the contracts, and
//! promises the battery's final state in its own contract.

use crate::buffer::{lemma_merged_del, lemma_merged_empty, lemma_merged_put};
use crate::gate::TxGate;
use crate::kv::{Read, Store, StoreError, Write};
use vstd::prelude::*;

verus! {

/// One-shot put/has/get conveniences on a fresh store: an unwritten key
/// reads as absent, a written key reads back its value, an overwrite reads
/// back the later value, and a second key is independent of the first.
/// On success the store holds exactly the two keys, each bound to the last
/// bytes written for it.
pub fn store<S: Store>(s: &mut S) -> (r: Result<(), StoreError>)
    requires
        old(s).committed() == Map::<Seq<char>, Seq<u8>>::empty(),
    ensures
        r is Ok ==> final(s).committed() == Map::<Seq<char>, Seq<u8>>::empty().insert(
            "foo"@,
            seq![98u8, 97u8, 122u8],
        ).insert("baz"@, seq![98u8, 97u8, 116u8]),
{
    proof {
        reveal_strlit("foo");
        reveal_strlit("baz");
        assert("foo"@[0] == 'f' && "baz"@[0] == 'b');
        assert("foo"@ != "baz"@);
    }
    let h = s.has("foo")?;
    assert(!h);
    let g = s.get("foo")?;
    assert(g is None);

    let bar: Vec<u8> = vec![98u8, 97u8, 114u8];
    s.put("foo", bar.as_slice())?;
    let h = s.has("foo")?;
    assert(h);
    let g = s.get("foo")?;
    assert(g matches Some(v) && v@ == bar@);

    let baz_value: Vec<u8> = vec![98u8, 97u8, 122u8];
    s.put("foo", baz_value.as_slice())?;
    let h = s.has("foo")?;
    assert(h);
    let g = s.get("foo")?;
    assert(g matches Some(v) && v@ == baz_value@);

    let h = s.has("baz")?;
    assert(!h);
    let g = s.get("baz")?;
    assert(g is None);
    let bat: Vec<u8> = vec![98u8, 97u8, 116u8];
    s.put("baz", bat.as_slice())?;
    let h = s.has("baz")?;
    assert(h);
    let g = s.get("baz")?;
    assert(g matches Some(v) && v@ == bat@);

    proof {
        assert(baz_value@ =~= seq![98u8, 97u8, 122u8]);
        assert(bat@ =~= seq![98u8, 97u8, 116u8]);
        assert(s.committed() =~= Map::<Seq<char>, Seq<u8>>::empty().insert(
            "foo"@,
            seq![98u8, 97u8, 122u8],
        ).insert("baz"@, seq![98u8, 97u8, 116u8]));
    }
    Ok(())
}

/// A read transaction observes the committed state at open. On success the
/// committed state is as before, with the one written key bound to its value.
pub fn read_transaction<S: Store>(s: &mut S) -> (r: Result<(), StoreError>)
    ensures
        r is Ok ==> final(s).committed() == old(s).committed().insert(
            "k1"@,
            seq![118u8, 49u8],
        ),
{
    let v1: Vec<u8> = vec![118u8, 49u8];
    s.put("k1", v1.as_slice())?;

    let rt = s.read()?;
    let h = rt.has("k1")?;
    assert(h);
    let g = rt.get("k1")?;
    assert(g matches Some(v) && v@ == v1@);

    proof {
        assert(v1@ =~= seq![118u8, 49u8]);
    }
    Ok(())
}

/// The write-transaction battery: put then commit, put then rollback, del
/// then commit, del then rollback, repeated overwrites collapsing to the
/// final staged value, and the same transaction read through `as_read`.
/// On success the first key ends deleted and the second bound to the final
/// staged bytes; nothing else changed.
pub fn write_transaction<S: Store>(s: &mut S) -> (r: Result<(), StoreError>)
    ensures
        r is Ok ==> final(s).committed() == old(s).committed().remove("k1"@).insert(
            "k2"@,
            seq![102u8, 105u8, 110u8, 97u8, 108u8],
        ),
{
    proof {
        reveal_strlit("k1");
        reveal_strlit("k2");
        assert("k1"@[1] == '1' && "k2"@[1] == '2');
        assert("k1"@ != "k2"@);
    }
    let v1: Vec<u8> = vec![118u8, 49u8];
    let v2: Vec<u8> = vec![118u8, 50u8];
    s.put("k1", v1.as_slice())?;
    s.put("k2", v2.as_slice())?;

    // Put then commit.
    let mut wt = s.write()?;
    proof {
        wt.reads_merge_pending();
        lemma_merged_empty(wt.base());
    }
    let h = wt.has("k1")?;
    assert(h);
    let h = wt.has("k2")?;
    assert(h);
    let over: Vec<u8> = vec![111u8, 118u8, 101u8, 114u8];
    wt.put("k1", over.as_slice())?;
    proof {
        lemma_merged_put(
            s.committed(),
            Map::<Seq<char>, Option<Seq<u8>>>::empty(),
            "k1"@,
            over@,
        );
        lemma_merged_empty(s.committed());
    }
    s.commit(wt)?;
    let g = s.get("k1")?;
    assert(g matches Some(v) && v@ == over@);
    let g = s.get("k2")?;
    assert(g matches Some(v) && v@ == v2@);

    // Put then rollback.
    let mut wt = s.write()?;
    let lost: Vec<u8> = vec![108u8, 111u8, 115u8, 116u8];
    wt.put("k1", lost.as_slice())?;
    s.rollback(wt)?;
    let g = s.get("k1")?;
    assert(g matches Some(v) && v@ == over@);

    // Del then commit.
    let mut wt = s.write()?;
    wt.del("k1")?;
    proof {
        wt.reads_merge_pending();
    }
    let h = wt.has("k1")?;
    assert(!h);
    proof {
        lemma_merged_del(s.committed(), Map::<Seq<char>, Option<Seq<u8>>>::empty(), "k1"@);
        lemma_merged_empty(s.committed());
    }
    s.commit(wt)?;
    let h = s.has("k1")?;
    assert(!h);

    // Del then rollback.
    let h = s.has("k2")?;
    assert(h);
    let mut wt = s.write()?;
    wt.del("k2")?;
    proof {
        wt.reads_merge_pending();
    }
    let h = wt.has("k2")?;
    assert(!h);
    s.rollback(wt)?;
    let h = s.has("k2")?;
    assert(h);

    // Overwrite several times in one transaction, then commit: only the
    // final staged value is applied.
    let mut wt = s.write()?;
    let first: Vec<u8> = vec![111u8, 118u8, 101u8, 114u8];
    wt.put("k2", first.as_slice())?;
    wt.del("k2")?;
    let last: Vec<u8> = vec![102u8, 105u8, 110u8, 97u8, 108u8];
    wt.put("k2", last.as_slice())?;
    proof {
        lemma_merged_put(s.committed(), wt.pending().remove("k2"@), "k2"@, last@);
        assert(wt.pending().remove("k2"@).insert("k2"@, Some(last@)) =~= wt.pending());
    }
    s.commit(wt)?;
    let g = s.get("k2")?;
    assert(g matches Some(v) && v@ == last@);

    // The same open transaction, read through the read-only capability.
    let mut wt = s.write()?;
    let newer: Vec<u8> = vec![110u8, 101u8, 119u8];
    wt.put("k2", newer.as_slice())?;
    proof {
        wt.reads_merge_pending();
    }
    let rt = wt.as_read();
    let h = rt.has("k2")?;
    assert(h);
    let g = rt.get("k2")?;
    assert(g matches Some(v) && v@ == newer@);

    proof {
        assert(last@ =~= seq![102u8, 105u8, 110u8, 97u8, 108u8]);
        assert(s.committed() =~= old(s).committed().remove("k1"@).insert(
            "k2"@,
            seq![102u8, 105u8, 110u8, 97u8, 108u8],
        ));
    }
    Ok(())
}

/// Law: a key the committed state does not bind reads as absent — `has`
/// answers false and `get` answers none.
pub fn unwritten_key_reads_absent<S: Store>(s: &S, key: &str) -> (r: Result<
    (bool, Option<Vec<u8>>),
    StoreError,
>)
    requires
        !s.committed().contains_key(key@),
    ensures
        r matches Ok(p) ==> !p.0 && p.1 is None,
{
    let h = s.has(key)?;
    let g = s.get(key)?;
    Ok((h, g))
}

/// Law: two puts to one key followed by a get read back the later value,
/// for every store, key and pair of values.
pub fn last_write_wins<S: Store>(s: &mut S, key: &str, v1: &[u8], v2: &[u8]) -> (r: Result<
    Option<Vec<u8>>,
    StoreError,
>)
    ensures
        r matches Ok(g) ==> (g matches Some(b) && b@ == v2@),
{
    s.put(key, v1)?;
    s.put(key, v2)?;
    s.get(key)
}

/// Law: a put followed by a get reads back exactly the bytes written, for
/// every byte sequence, the empty one and non-UTF-8 ones included.
pub fn round_trip<S: Store>(s: &mut S, key: &str, value: &[u8]) -> (r: Result<
    Option<Vec<u8>>,
    StoreError,
>)
    ensures
        r matches Ok(g) ==> (g matches Some(b) && b@ == value@),
{
    s.put(key, value)?;
    s.get(key)
}

/// Law: rolling back a transaction that only staged puts and deletions
/// leaves the committed state exactly as it was when the transaction opened,
/// whatever was staged and however the calls came out.
pub fn rollback_leaves_state<S: Store>(s: &mut S, key: &str, value: &[u8]) -> (r: Result<
    (),
    StoreError,
>)
    ensures
        final(s).committed() == old(s).committed(),
{
    let mut wt = s.write()?;
    wt.put(key, value)?;
    wt.del(key)?;
    wt.put(key, value)?;
    s.rollback(wt)
}

/// Law: several puts and deletions of one key within one transaction
/// collapse: commit applies only the final staged value.
pub fn overwrite_collapse<S: Store>(s: &mut S, key: &str, v1: &[u8], v2: &[u8]) -> (r: Result<
    Option<Vec<u8>>,
    StoreError,
>)
    ensures
        r matches Ok(g) ==> (g matches Some(b) && b@ == v2@),
{
    let mut wt = s.write()?;
    wt.put(key, v1)?;
    wt.del(key)?;
    wt.put(key, v2)?;
    proof {
        lemma_merged_put(s.committed(), wt.pending().remove(key@), key@, v2@);
        assert(wt.pending().remove(key@).insert(key@, Some(v2@)) =~= wt.pending());
    }
    s.commit(wt)?;
    s.get(key)
}

/// A staged deletion is visible inside its own transaction before commit,
/// while a read transaction opened concurrently still observes the
/// pre-delete value, both until the deletion commits and after. On success
/// the deleted key is absent from the committed state.
pub fn del_isolation<S: Store>(s: &mut S) -> (r: Result<(), StoreError>)
    ensures
        r is Ok ==> final(s).committed() == old(s).committed().remove("k1"@),
{
    let doomed: Vec<u8> = vec![100u8];
    s.put("k1", doomed.as_slice())?;

    let rt = s.read()?;
    let mut wt = s.write()?;
    wt.del("k1")?;
    proof {
        wt.reads_merge_pending();
    }
    let h = wt.has("k1")?;
    assert(!h);
    let h = rt.has("k1")?;
    assert(h);
    let g = rt.get("k1")?;
    assert(g matches Some(v) && v@ == doomed@);

    proof {
        lemma_merged_del(s.committed(), Map::<Seq<char>, Option<Seq<u8>>>::empty(), "k1"@);
        lemma_merged_empty(s.committed());
    }
    s.commit(wt)?;
    let h = s.has("k1")?;
    assert(!h);
    let h = rt.has("k1")?;
    assert(h);

    proof {
        assert(s.committed() =~= old(s).committed().remove("k1"@));
    }
    Ok(())
}

/// The isolation ordering at the admission gate: two concurrent readers both
/// admitted; a writer refused while either reader is open and admitted only
/// once both closed; a second writer and a new reader refused while the
/// writer is open; a reader admitted again once the writer closed.
pub fn isolation(gate: &mut TxGate)
    requires
        old(gate).open_reads() == 0,
        !old(gate).writer_open(),
    ensures
        final(gate).open_reads() == 0,
        !final(gate).writer_open(),
{
    let admitted = gate.try_begin_read();
    assert(admitted);
    let admitted = gate.try_begin_read();
    assert(admitted);

    let admitted = gate.try_begin_write();
    assert(!admitted);

    gate.end_read();
    let admitted = gate.try_begin_write();
    assert(!admitted);

    gate.end_read();
    let admitted = gate.try_begin_write();
    assert(admitted);

    let admitted = gate.try_begin_write();
    assert(!admitted);
    let admitted = gate.try_begin_read();
    assert(!admitted);

    gate.end_write();
    let admitted = gate.try_begin_read();
    assert(admitted);
    gate.end_read();
}

} // verus!
