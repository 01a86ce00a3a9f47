//! The reference in-memory backend: the full `Store`/`Read`/`Write` contract
//! with no external engine, so the contract can be exercised cheaply and
//! deterministically.

use crate::buffer::{
    lemma_merged_empty, lemma_merged_put, lemma_merged_union, merged, StagedSlot, WriteBuffer,
};
use crate::kv::{Read, Store, StoreError, Write};
use vstd::prelude::*;

verus! {

/// The in-memory backend: the authoritative data lives in one owned staging
/// log read with last-write-wins semantics, so the committed state is that
/// log applied to an empty base.
pub struct MemStore {
    log: WriteBuffer,
}

/// A read transaction of the in-memory backend: an owned snapshot of the
/// store's log at open, unaffected by later commits.
pub struct MemRead {
    snapshot: WriteBuffer,
}

/// A write transaction of the in-memory backend: an owned base snapshot plus
/// the pending map of buffered mutations.
pub struct MemWrite {
    snapshot: WriteBuffer,
    pending: WriteBuffer,
}

impl MemStore {
    /// A fresh store holds no keys.
    pub fn new() -> (s: MemStore)
        ensures
            s.committed() == Map::<Seq<char>, Seq<u8>>::empty(),
    {
        let s = MemStore { log: WriteBuffer::new() };
        proof {
            assert(s.committed() =~= Map::<Seq<char>, Seq<u8>>::empty());
        }
        s
    }
}

impl Read for MemRead {
    closed spec fn visible(&self) -> Map<Seq<char>, Seq<u8>> {
        merged(Map::empty(), self.snapshot.staged())
    }

    fn has(&self, key: &str) -> (r: Result<bool, StoreError>)
        ensures
            r is Ok,
    {
        match self.snapshot.lookup(key) {
            StagedSlot::Written(_) => Ok(true),
            StagedSlot::Deleted => Ok(false),
            StagedSlot::Untouched => Ok(false),
        }
    }

    fn get(&self, key: &str) -> (r: Result<Option<Vec<u8>>, StoreError>)
        ensures
            r is Ok,
    {
        match self.snapshot.lookup(key) {
            StagedSlot::Written(v) => Ok(Some(v)),
            StagedSlot::Deleted => Ok(None),
            StagedSlot::Untouched => Ok(None),
        }
    }
}

impl Read for MemWrite {
    closed spec fn visible(&self) -> Map<Seq<char>, Seq<u8>> {
        merged(merged(Map::empty(), self.snapshot.staged()), self.pending.staged())
    }

    fn has(&self, key: &str) -> (r: Result<bool, StoreError>)
        ensures
            r is Ok,
    {
        match self.pending.lookup(key) {
            StagedSlot::Written(_) => Ok(true),
            StagedSlot::Deleted => Ok(false),
            StagedSlot::Untouched => match self.snapshot.lookup(key) {
                StagedSlot::Written(_) => Ok(true),
                StagedSlot::Deleted => Ok(false),
                StagedSlot::Untouched => Ok(false),
            },
        }
    }

    fn get(&self, key: &str) -> (r: Result<Option<Vec<u8>>, StoreError>)
        ensures
            r is Ok,
    {
        match self.pending.lookup(key) {
            StagedSlot::Written(v) => Ok(Some(v)),
            StagedSlot::Deleted => Ok(None),
            StagedSlot::Untouched => match self.snapshot.lookup(key) {
                StagedSlot::Written(v) => Ok(Some(v)),
                StagedSlot::Deleted => Ok(None),
                StagedSlot::Untouched => Ok(None),
            },
        }
    }
}

impl Write for MemWrite {
    closed spec fn base(&self) -> Map<Seq<char>, Seq<u8>> {
        merged(Map::empty(), self.snapshot.staged())
    }

    closed spec fn pending(&self) -> Map<Seq<char>, Option<Seq<u8>>> {
        self.pending.staged()
    }

    proof fn reads_merge_pending(&self) {
    }

    fn as_read(&self) -> (r: &Self) {
        self
    }

    fn put(&mut self, key: &str, value: &[u8]) -> (r: Result<(), StoreError>)
        ensures
            r is Ok,
    {
        self.pending.stage_put(key, value);
        Ok(())
    }

    fn del(&mut self, key: &str) -> (r: Result<(), StoreError>)
        ensures
            r is Ok,
    {
        self.pending.stage_del(key);
        Ok(())
    }
}

impl Store for MemStore {
    type ReadTx = MemRead;

    type WriteTx = MemWrite;

    closed spec fn committed(&self) -> Map<Seq<char>, Seq<u8>> {
        merged(Map::empty(), self.log.staged())
    }

    fn read(&self) -> (r: Result<MemRead, StoreError>)
        ensures
            r is Ok,
    {
        Ok(MemRead { snapshot: self.log.duplicate() })
    }

    fn write(&self) -> (r: Result<MemWrite, StoreError>)
        ensures
            r is Ok,
    {
        Ok(MemWrite { snapshot: self.log.duplicate(), pending: WriteBuffer::new() })
    }

    fn commit(&mut self, tx: MemWrite) -> (r: Result<(), StoreError>)
        ensures
            r is Ok,
    {
        let MemWrite { snapshot: _, pending } = tx;
        if pending.is_empty() {
            proof {
                lemma_merged_empty(old(self).committed());
            }
            return Ok(());
        }
        proof {
            lemma_merged_union(Map::empty(), self.log.staged(), pending.staged());
        }
        self.log.absorb(pending);
        Ok(())
    }

    fn rollback(&mut self, tx: MemWrite) -> (r: Result<(), StoreError>)
        ensures
            r is Ok,
    {
        let _ = tx;
        Ok(())
    }

    fn put(&mut self, key: &str, value: &[u8]) -> (r: Result<(), StoreError>)
        ensures
            r is Ok,
    {
        let mut wt = self.write()?;
        wt.put(key, value)?;
        proof {
            lemma_merged_put(
                self.committed(),
                Map::<Seq<char>, Option<Seq<u8>>>::empty(),
                key@,
                value@,
            );
            lemma_merged_empty(self.committed());
        }
        self.commit(wt)
    }

    fn has(&self, key: &str) -> (r: Result<bool, StoreError>)
        ensures
            r is Ok,
    {
        let rt = self.read()?;
        rt.has(key)
    }

    fn get(&self, key: &str) -> (r: Result<Option<Vec<u8>>, StoreError>)
        ensures
            r is Ok,
    {
        let rt = self.read()?;
        rt.get(key)
    }
}

} // verus!
