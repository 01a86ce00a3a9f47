//! The isolation gate: the single-writer/multi-reader admission discipline
//! every backend must enforce. Any number of read transactions may be open at
//! once; a write transaction is admitted only when nothing else is open, and
//! while it is open nothing else is admitted. A caller that is refused waits
//! and asks again once some transaction closes.

use vstd::prelude::*;

verus! {

/// Counts the open read transactions and whether a write transaction is open.
pub struct TxGate {
    readers: usize,
    writer: bool,
}

impl TxGate {
    /// How many read transactions are open.
    pub closed spec fn open_reads(&self) -> nat {
        self.readers as nat
    }

    /// Whether a write transaction is open.
    pub closed spec fn writer_open(&self) -> bool {
        self.writer
    }

    /// When a new read transaction may open: whenever no writer is open.
    pub open spec fn read_admissible(&self) -> bool {
        !self.writer_open()
    }

    /// When a new write transaction may open: only when no reader and no
    /// writer is open.
    pub open spec fn write_admissible(&self) -> bool {
        !self.writer_open() && self.open_reads() == 0
    }

    /// A fresh gate has nothing open.
    pub fn new() -> (g: TxGate)
        ensures
            g.open_reads() == 0,
            !g.writer_open(),
    {
        TxGate { readers: 0, writer: false }
    }

    /// Ask to open a read transaction. Admitted exactly when no writer is
    /// open; a refusal changes nothing, and the caller asks again later.
    pub fn try_begin_read(&mut self) -> (admitted: bool)
        requires
            old(self).open_reads() < usize::MAX,
        ensures
            admitted == old(self).read_admissible(),
            admitted ==> final(self).open_reads() == old(self).open_reads() + 1,
            !admitted ==> final(self).open_reads() == old(self).open_reads(),
            final(self).writer_open() == old(self).writer_open(),
    {
        if self.writer {
            false
        } else {
            self.readers = self.readers + 1;
            true
        }
    }

    /// Ask to open a write transaction. Admitted exactly when no reader and
    /// no writer is open; a refusal changes nothing.
    pub fn try_begin_write(&mut self) -> (admitted: bool)
        ensures
            admitted == old(self).write_admissible(),
            admitted ==> final(self).writer_open() && final(self).open_reads() == 0,
            !admitted ==> final(self).writer_open() == old(self).writer_open(),
            !admitted ==> final(self).open_reads() == old(self).open_reads(),
    {
        if self.writer || self.readers > 0 {
            false
        } else {
            self.writer = true;
            true
        }
    }

    /// How many read transactions are open, as a machine integer.
    pub fn reads_open(&self) -> (n: usize)
        ensures
            n == self.open_reads(),
    {
        self.readers
    }

    /// Whether a write transaction is open.
    pub fn is_writer_open(&self) -> (b: bool)
        ensures
            b == self.writer_open(),
    {
        self.writer
    }

    /// One open read transaction closed.
    pub fn end_read(&mut self)
        requires
            old(self).open_reads() > 0,
        ensures
            final(self).open_reads() == old(self).open_reads() - 1,
            final(self).writer_open() == old(self).writer_open(),
    {
        self.readers = self.readers - 1;
    }

    /// The open write transaction closed (committed or rolled back).
    pub fn end_write(&mut self)
        requires
            old(self).writer_open(),
        ensures
            !final(self).writer_open(),
            final(self).open_reads() == old(self).open_reads(),
    {
        self.writer = false;
    }
}

/// Law: while one or more read transactions are open, a write request is not
/// admitted — even after some, but not all, of the readers close.
pub proof fn lemma_reads_block_writes(g: &TxGate)
    requires
        g.open_reads() > 0,
    ensures
        !g.write_admissible(),
{
}

/// Law: while a write transaction is open, neither a new read nor a new
/// write request is admitted until it closes.
pub proof fn lemma_writer_blocks_all(g: &TxGate)
    requires
        g.writer_open(),
    ensures
        !g.read_admissible(),
        !g.write_admissible(),
{
}

/// Law: a write request is admitted exactly when no reader and no writer
/// is open, so a blocked writer is admitted as soon as the last reader or
/// the writer closes, provided nothing else opened in between.
pub proof fn lemma_write_admitted_iff_idle(g: &TxGate)
    ensures
        g.write_admissible() == (g.open_reads() == 0 && !g.writer_open()),
{
}

} // verus!
