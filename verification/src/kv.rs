//! The transaction contract every backend offers: a `Store` hands out `Read`
//! and `Write` transactions; a write transaction buffers mutations and makes
//! them visible to everyone only when the store commits it.

use crate::buffer::merged;
use vstd::prelude::*;

verus! {

/// The single opaque error type every store operation reports, carrying a
/// diagnostic string.
#[derive(Debug)]
pub enum StoreError {
    Str(String),
}

impl StoreError {
    /// The diagnostic message carried by this error.
    pub fn message(&self) -> (m: &String)
        ensures
            self matches StoreError::Str(s) && m == s,
    {
        match self {
            StoreError::Str(s) => s,
        }
    }
}

impl From<String> for StoreError {
    /// Wrap a diagnostic string.
    fn from(err: String) -> (r: StoreError) {
        StoreError::Str(err)
    }
}

impl vstd::std_specs::convert::FromSpecImpl<String> for StoreError {
    open spec fn obeys_from_spec() -> bool {
        true
    }

    open spec fn from_spec(err: String) -> StoreError {
        StoreError::Str(err)
    }
}

/// A read-only transaction: point lookups against one consistent snapshot.
/// For a transaction opened by `Store::read` the snapshot is the committed
/// state at open; for an open write transaction it is the base snapshot
/// shadowed by the transaction's own pending mutations.
pub trait Read {
    /// The key-value map this transaction observes.
    spec fn visible(&self) -> Map<Seq<char>, Seq<u8>>;

    /// Whether the snapshot binds this key.
    fn has(&self, key: &str) -> (r: Result<bool, StoreError>)
        ensures
            r matches Ok(b) ==> b == self.visible().contains_key(key@),
    ;

    /// The bytes the snapshot binds this key to, or none. An absent key is
    /// never conflated with a present key bound to an empty byte sequence.
    fn get(&self, key: &str) -> (r: Result<Option<Vec<u8>>, StoreError>)
        ensures
            r matches Ok(v) ==> match v {
                Some(bytes) => self.visible().contains_key(key@) && bytes@ == self.visible()[key@],
                None => !self.visible().contains_key(key@),
            },
    ;
}

/// A read-write transaction: reads like `Read`, and stages puts and
/// tombstones in a pending map that shadows the base snapshot until the store
/// commits the transaction.
pub trait Write: Read {
    /// The committed state this transaction was opened over.
    spec fn base(&self) -> Map<Seq<char>, Seq<u8>>;

    /// The staged mutations: bytes to write, or a tombstone, per staged key.
    spec fn pending(&self) -> Map<Seq<char>, Option<Seq<u8>>>;

    /// Law: reads against an open write transaction see its base snapshot
    /// shadowed by its pending mutations; a staged tombstone hides its key
    /// even though the base still binds it.
    proof fn reads_merge_pending(&self)
        ensures
            self.visible() == merged(self.base(), self.pending()),
    ;

    /// This same transaction, through the read-only capability.
    fn as_read(&self) -> (r: &Self)
        ensures
            r == self,
    ;

    /// Stage a put. No mutation becomes visible outside this transaction.
    fn put(&mut self, key: &str, value: &[u8]) -> (r: Result<(), StoreError>)
        ensures
            r is Ok ==> final(self).pending() == old(self).pending().insert(key@, Some(value@)),
            r is Ok ==> final(self).base() == old(self).base(),
            r is Err ==> final(self).pending() == old(self).pending() && final(self).base()
                == old(self).base() && final(self).visible() == old(self).visible(),
    ;

    /// Stage a tombstone: within this transaction the key reads as absent,
    /// even though the base snapshot still binds it until commit.
    fn del(&mut self, key: &str) -> (r: Result<(), StoreError>)
        ensures
            r is Ok ==> final(self).pending() == old(self).pending().insert(key@, None),
            r is Ok ==> final(self).base() == old(self).base(),
            r is Err ==> final(self).pending() == old(self).pending() && final(self).base()
                == old(self).base() && final(self).visible() == old(self).visible(),
    ;
}

/// One logical database: hands out transactions, and applies a write
/// transaction's pending map to the committed state atomically on commit.
pub trait Store: Sized {
    /// The read-only transactions this store hands out.
    type ReadTx: Read;

    /// The read-write transactions this store hands out.
    type WriteTx: Write;

    /// The committed key-value state.
    spec fn committed(&self) -> Map<Seq<char>, Seq<u8>>;

    /// Open a read-only transaction over the committed state.
    fn read(&self) -> (r: Result<Self::ReadTx, StoreError>)
        ensures
            r matches Ok(rt) ==> rt.visible() == self.committed(),
    ;

    /// Open a read-write transaction: its base snapshot is the committed
    /// state and nothing is staged yet.
    fn write(&self) -> (r: Result<Self::WriteTx, StoreError>)
        ensures
            r matches Ok(wt) ==> wt.base() == self.committed() && wt.pending() == Map::<
                Seq<char>,
                Option<Seq<u8>>,
            >::empty(),
    ;

    /// Commit: consume the transaction and apply its whole pending map to the
    /// committed state at once. On failure nothing becomes visible. A
    /// transaction that staged nothing commits successfully with no backend
    /// interaction, whatever state the backend's own transaction is in.
    fn commit(&mut self, tx: Self::WriteTx) -> (r: Result<(), StoreError>)
        ensures
            r is Ok ==> final(self).committed() == merged(old(self).committed(), tx.pending()),
            r is Err ==> final(self).committed() == old(self).committed(),
            tx.pending() == Map::<Seq<char>, Option<Seq<u8>>>::empty() ==> r is Ok,
    ;

    /// Roll back: consume the transaction; the committed state is exactly as
    /// it was before the transaction opened. A transaction that staged
    /// nothing rolls back successfully, whatever state the backend's own
    /// transaction is in.
    fn rollback(&mut self, tx: Self::WriteTx) -> (r: Result<(), StoreError>)
        ensures
            final(self).committed() == old(self).committed(),
            tx.pending() == Map::<Seq<char>, Option<Seq<u8>>>::empty() ==> r is Ok,
    ;

    /// Convenience: stage one put in a fresh write transaction and commit it.
    fn put(&mut self, key: &str, value: &[u8]) -> (r: Result<(), StoreError>)
        ensures
            r is Ok ==> final(self).committed() == old(self).committed().insert(key@, value@),
            r is Err ==> final(self).committed() == old(self).committed(),
    ;

    /// Convenience: whether the committed state binds this key.
    fn has(&self, key: &str) -> (r: Result<bool, StoreError>)
        ensures
            r matches Ok(b) ==> b == self.committed().contains_key(key@),
    ;

    /// Convenience: the bytes the committed state binds this key to, or none.
    fn get(&self, key: &str) -> (r: Result<Option<Vec<u8>>, StoreError>)
        ensures
            r matches Ok(v) ==> match v {
                Some(bytes) => self.committed().contains_key(key@) && bytes@
                    == self.committed()[key@],
                None => !self.committed().contains_key(key@),
            },
    ;
}

} // verus!
