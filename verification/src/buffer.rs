//! The write buffer an open write transaction owns: a staging log of puts and
//! tombstones, read back with last-write-wins semantics, shadowing a base
//! snapshot until commit.

use vstd::prelude::*;

verus! {

/// What one staged slot means: `Some` bytes to be written, or `None`, a
/// tombstone recording a deletion (distinct from the key never being staged).
pub open spec fn slot_view(slot: Option<Vec<u8>>) -> Option<Seq<u8>> {
    match slot {
        Some(v) => Some(v@),
        None => None,
    }
}

/// The bytes held by a non-tombstone slot.
pub open spec fn slot_bytes(slot: Option<Seq<u8>>) -> Seq<u8> {
    match slot {
        Some(v) => v,
        None => Seq::empty(),
    }
}

/// The map described by a staging log: each key is bound to its most recently
/// staged slot, so later entries override earlier ones.
pub open spec fn log_view(log: Seq<(String, Option<Vec<u8>>)>) -> Map<Seq<char>, Option<Seq<u8>>>
    decreases log.len(),
{
    if log.len() == 0 {
        Map::empty()
    } else {
        log_view(log.drop_last()).insert(log.last().0@, slot_view(log.last().1))
    }
}

/// What a transaction reads when staged mutations shadow a base snapshot:
/// a staged value wins over the base, a tombstone hides the key entirely, and
/// an unstaged key falls through to the base.
pub open spec fn merged(
    base: Map<Seq<char>, Seq<u8>>,
    pending: Map<Seq<char>, Option<Seq<u8>>>,
) -> Map<Seq<char>, Seq<u8>> {
    Map::new(
        |k: Seq<char>|
            if pending.contains_key(k) {
                pending[k] is Some
            } else {
                base.contains_key(k)
            },
        |k: Seq<char>|
            if pending.contains_key(k) {
                slot_bytes(pending[k])
            } else {
                base[k]
            },
    )
}

/// Shadowing nothing changes nothing.
pub proof fn lemma_merged_empty(base: Map<Seq<char>, Seq<u8>>)
    ensures
        merged(base, Map::empty()) == base,
{
    assert(merged(base, Map::empty()) =~= base);
}

/// A staged put is read back: shadowing one more put binds exactly that key
/// to exactly those bytes.
pub proof fn lemma_merged_put(
    base: Map<Seq<char>, Seq<u8>>,
    pending: Map<Seq<char>, Option<Seq<u8>>>,
    k: Seq<char>,
    v: Seq<u8>,
)
    ensures
        merged(base, pending.insert(k, Some(v))) == merged(base, pending).insert(k, v),
{
    assert(merged(base, pending.insert(k, Some(v))) =~= merged(base, pending).insert(k, v));
}

/// A staged tombstone hides its key, and only its key.
pub proof fn lemma_merged_del(
    base: Map<Seq<char>, Seq<u8>>,
    pending: Map<Seq<char>, Option<Seq<u8>>>,
    k: Seq<char>,
)
    ensures
        merged(base, pending.insert(k, None)) == merged(base, pending).remove(k),
{
    assert(merged(base, pending.insert(k, None)) =~= merged(base, pending).remove(k));
}

/// Applying two batches of staged mutations in turn is the same as applying
/// their union, the later batch winning where both stage one key.
pub proof fn lemma_merged_union(
    base: Map<Seq<char>, Seq<u8>>,
    first: Map<Seq<char>, Option<Seq<u8>>>,
    second: Map<Seq<char>, Option<Seq<u8>>>,
)
    ensures
        merged(merged(base, first), second) == merged(base, first.union_prefer_right(second)),
{
    assert(merged(merged(base, first), second) =~= merged(
        base,
        first.union_prefer_right(second),
    ));
}

/// Round trip: the value staged for a key is the value read back for it.
pub proof fn lemma_round_trip(m: Map<Seq<char>, Seq<u8>>, k: Seq<char>, v: Seq<u8>)
    ensures
        m.insert(k, v).contains_key(k),
        m.insert(k, v)[k] == v,
{
}

/// Last write wins: of two writes to one key, only the later is kept, and it
/// is the value read back.
pub proof fn lemma_last_write_wins(
    m: Map<Seq<char>, Seq<u8>>,
    k: Seq<char>,
    v1: Seq<u8>,
    v2: Seq<u8>,
)
    ensures
        m.insert(k, v1).insert(k, v2) == m.insert(k, v2),
        m.insert(k, v1).insert(k, v2)[k] == v2,
{
    assert(m.insert(k, v1).insert(k, v2) =~= m.insert(k, v2));
}

/// Staged mutations of one key collapse to the final staged slot.
pub proof fn lemma_stage_collapse(
    pending: Map<Seq<char>, Option<Seq<u8>>>,
    k: Seq<char>,
    s1: Option<Seq<u8>>,
    s2: Option<Seq<u8>>,
)
    ensures
        pending.insert(k, s1).insert(k, s2) == pending.insert(k, s2),
{
    assert(pending.insert(k, s1).insert(k, s2) =~= pending.insert(k, s2));
}

/// A staged deletion hides the key from the transaction that staged it, while
/// any snapshot taken of the base alone still binds the key as before.
pub proof fn lemma_del_visible_only_inside(
    base: Map<Seq<char>, Seq<u8>>,
    pending: Map<Seq<char>, Option<Seq<u8>>>,
    k: Seq<char>,
)
    ensures
        !merged(base, pending.insert(k, None)).contains_key(k),
        merged(base, Map::empty()).contains_key(k) == base.contains_key(k),
        base.contains_key(k) ==> merged(base, Map::empty())[k] == base[k],
{
    lemma_merged_empty(base);
}

/// The most recent log entry for a key decides what the log's map binds it to.
proof fn lemma_log_view_last(log: Seq<(String, Option<Vec<u8>>)>, k: Seq<char>, i: int)
    requires
        0 <= i < log.len(),
        log[i].0@ == k,
        forall|j: int| i < j < log.len() ==> log[j].0@ != k,
    ensures
        log_view(log).contains_key(k),
        log_view(log)[k] == slot_view(log[i].1),
    decreases log.len(),
{
    if i == log.len() - 1 {
    } else {
        assert(log.drop_last()[i] == log[i]);
        lemma_log_view_last(log.drop_last(), k, i);
    }
}

/// A key no log entry names is not in the log's map.
proof fn lemma_log_view_absent(log: Seq<(String, Option<Vec<u8>>)>, k: Seq<char>)
    requires
        forall|j: int| 0 <= j < log.len() ==> log[j].0@ != k,
    ensures
        !log_view(log).contains_key(k),
    decreases log.len(),
{
    if log.len() > 0 {
        assert(forall|j: int| 0 <= j < log.drop_last().len() ==> log.drop_last()[j] == log[j]);
        lemma_log_view_absent(log.drop_last(), k);
    }
}

/// Concatenating staging logs unions their maps, the later log winning.
proof fn lemma_log_view_concat(a: Seq<(String, Option<Vec<u8>>)>, b: Seq<(String, Option<Vec<u8>>)>)
    ensures
        log_view(a + b) == log_view(a).union_prefer_right(log_view(b)),
    decreases b.len(),
{
    if b.len() == 0 {
        assert(a + b =~= a);
        assert(log_view(a).union_prefer_right(log_view(b)) =~= log_view(a));
    } else {
        assert((a + b).drop_last() =~= a + b.drop_last());
        assert((a + b).last() == b.last());
        lemma_log_view_concat(a, b.drop_last());
        assert(log_view(a).union_prefer_right(log_view(b.drop_last())).insert(
            b.last().0@,
            slot_view(b.last().1),
        ) =~= log_view(a).union_prefer_right(log_view(b)));
    }
}

/// A key bound by a log's map is named by some entry of the log.
proof fn lemma_log_view_key_has_entry(log: Seq<(String, Option<Vec<u8>>)>, k: Seq<char>)
    requires
        log_view(log).contains_key(k),
    ensures
        exists|j: int| 0 <= j < log.len() && log[j].0@ == k,
{
    if !(exists|j: int| 0 <= j < log.len() && log[j].0@ == k) {
        lemma_log_view_absent(log, k);
    }
}

/// Two logs whose entries agree key by key and slot by slot describe the
/// same map.
proof fn lemma_log_view_congruent(
    a: Seq<(String, Option<Vec<u8>>)>,
    b: Seq<(String, Option<Vec<u8>>)>,
)
    requires
        a.len() == b.len(),
        forall|j: int|
            0 <= j < a.len() ==> a[j].0@ == b[j].0@ && slot_view(a[j].1) == slot_view(b[j].1),
    ensures
        log_view(a) == log_view(b),
    decreases a.len(),
{
    if a.len() > 0 {
        assert(forall|j: int| 0 <= j < a.drop_last().len() ==> a.drop_last()[j] == a[j]);
        assert(forall|j: int| 0 <= j < b.drop_last().len() ==> b.drop_last()[j] == b[j]);
        lemma_log_view_congruent(a.drop_last(), b.drop_last());
        assert(a[a.len() - 1].0@ == b[b.len() - 1].0@);
        assert(slot_view(a[a.len() - 1].1) == slot_view(b[b.len() - 1].1));
    }
}

/// How one staged lookup answers: the key was never staged, its latest staged
/// mutation is a deletion, or its latest staged mutation writes these bytes.
pub enum StagedSlot {
    Untouched,
    Deleted,
    Written(Vec<u8>),
}

/// The pending map of an open write transaction: an append-only staging log
/// recording buffered puts and tombstones, not yet visible to any other
/// transaction.
pub struct WriteBuffer {
    log: Vec<(String, Option<Vec<u8>>)>,
}

impl WriteBuffer {
    /// The staged mutations by key: each key's most recently staged slot.
    pub closed spec fn staged(&self) -> Map<Seq<char>, Option<Seq<u8>>> {
        log_view(self.log@)
    }

    /// A fresh buffer stages nothing.
    pub fn new() -> (buf: WriteBuffer)
        ensures
            buf.staged() == Map::<Seq<char>, Option<Seq<u8>>>::empty(),
    {
        WriteBuffer { log: Vec::new() }
    }

    /// True exactly when nothing is staged.
    pub fn is_empty(&self) -> (r: bool)
        ensures
            r == (self.staged() == Map::<Seq<char>, Option<Seq<u8>>>::empty()),
    {
        let r = self.log.is_empty();
        proof {
            if self.log@.len() == 0 {
                assert(self.staged() =~= Map::<Seq<char>, Option<Seq<u8>>>::empty());
            } else {
                let last = self.log@.last();
                assert(self.staged().contains_key(last.0@));
            }
        }
        r
    }

    /// Stage a put: the key's slot becomes these bytes, overriding anything
    /// staged for it before.
    pub fn stage_put(&mut self, key: &str, value: &[u8])
        ensures
            final(self).staged() == old(self).staged().insert(key@, Some(value@)),
    {
        self.log.push((key.to_owned(), Some(copy_bytes(value))));
        proof {
            assert(self.log@.drop_last() =~= old(self).log@);
        }
    }

    /// Stage a deletion: the key's slot becomes a tombstone, overriding
    /// anything staged for it before.
    pub fn stage_del(&mut self, key: &str)
        ensures
            final(self).staged() == old(self).staged().insert(key@, None),
    {
        self.log.push((key.to_owned(), None));
        proof {
            assert(self.log@.drop_last() =~= old(self).log@);
        }
    }

    /// What is staged for a key, the latest staged mutation winning.
    pub fn lookup(&self, key: &str) -> (r: StagedSlot)
        ensures
            match r {
                StagedSlot::Untouched => !self.staged().contains_key(key@),
                StagedSlot::Deleted => self.staged().contains_key(key@) && self.staged()[key@]
                    is None,
                StagedSlot::Written(v) => self.staged().contains_key(key@) && self.staged()[key@]
                    == Some(v@),
            },
    {
        let k = key.to_owned();
        let mut i: usize = self.log.len();
        while i > 0
            invariant
                i <= self.log@.len(),
                k@ == key@,
                forall|j: int| i <= j < self.log@.len() ==> self.log@[j].0@ != key@,
            decreases i,
        {
            i = i - 1;
            if self.log[i].0 == k {
                proof {
                    lemma_log_view_last(self.log@, key@, i as int);
                }
                return match &self.log[i].1 {
                    Some(v) => StagedSlot::Written(copy_bytes(v)),
                    None => StagedSlot::Deleted,
                };
            }
        }
        proof {
            lemma_log_view_absent(self.log@, key@);
        }
        StagedSlot::Untouched
    }

    /// The staged mutations, collapsed: one entry per staged key, carrying
    /// the key's final staged slot, so a backend can be sent one request per
    /// key in any order.
    pub fn collapsed(&self) -> (r: Vec<(String, Option<Vec<u8>>)>)
        ensures
            forall|m: int|
                0 <= m < r@.len() ==> self.staged().contains_key(#[trigger] r@[m].0@)
                    && self.staged()[r@[m].0@] == slot_view(r@[m].1),
            forall|k: Seq<char>| self.staged().contains_key(k) ==> #[trigger] key_listed(r@, k),
            forall|m1: int, m2: int| 0 <= m1 < m2 < r@.len() ==> r@[m1].0@ != r@[m2].0@,
    {
        let mut out: Vec<(String, Option<Vec<u8>>)> = Vec::new();
        let mut i: usize = self.log.len();
        while i > 0
            invariant
                i <= self.log@.len(),
                forall|m: int|
                    0 <= m < out@.len() ==> self.staged().contains_key(#[trigger] out@[m].0@)
                        && self.staged()[out@[m].0@] == slot_view(out@[m].1),
                forall|j: int| i <= j < self.log@.len() ==> key_listed(out@, #[trigger] self.log@[j].0@),
                forall|m1: int, m2: int| 0 <= m1 < m2 < out@.len() ==> out@[m1].0@ != out@[m2].0@,
            decreases i,
        {
            i = i - 1;
            let ghost out0 = out@;
            if !contains_key_among(&out, &self.log[i].0) {
                proof {
                    assert forall|j: int| i < j < self.log@.len() implies self.log@[j].0@
                        != self.log@[i as int].0@ by {
                        if self.log@[j].0@ == self.log@[i as int].0@ {
                            assert(key_listed(out@, self.log@[j].0@));
                        }
                    }
                    lemma_log_view_last(self.log@, self.log@[i as int].0@, i as int);
                }
                let entry_key = self.log[i].0.clone();
                let entry_slot = match &self.log[i].1 {
                    Some(v) => Some(copy_bytes(v)),
                    None => None,
                };
                out.push((entry_key, entry_slot));
                proof {
                    assert(out@[out0.len() as int].0@ == self.log@[i as int].0@);
                    assert forall|j: int| i <= j < self.log@.len() implies key_listed(
                        out@,
                        #[trigger] self.log@[j].0@,
                    ) by {
                        if j == i {
                            assert(key_listed(out@, self.log@[j].0@));
                        } else {
                            assert(key_listed(out0, self.log@[j].0@));
                            let m = choose|m: int|
                                0 <= m < out0.len() && #[trigger] out0[m].0@ == self.log@[j].0@;
                            assert(out@[m].0@ == self.log@[j].0@);
                        }
                    }
                }
            }
        }
        proof {
            assert forall|k: Seq<char>| self.staged().contains_key(k) implies key_listed(
                out@,
                k,
            ) by {
                lemma_log_view_key_has_entry(self.log@, k);
            }
        }
        out
    }

    /// An owned copy of this buffer, staging exactly the same slots.
    pub fn duplicate(&self) -> (r: WriteBuffer)
        ensures
            r.staged() == self.staged(),
    {
        let mut log: Vec<(String, Option<Vec<u8>>)> = Vec::new();
        let mut i: usize = 0;
        while i < self.log.len()
            invariant
                i <= self.log@.len(),
                log@.len() == i,
                forall|j: int|
                    0 <= j < i ==> log@[j].0@ == self.log@[j].0@ && slot_view(log@[j].1)
                        == slot_view(self.log@[j].1),
            decreases self.log@.len() - i,
        {
            let entry_key = self.log[i].0.clone();
            let entry_slot = match &self.log[i].1 {
                Some(v) => Some(copy_bytes(v)),
                None => None,
            };
            log.push((entry_key, entry_slot));
            i = i + 1;
        }
        let r = WriteBuffer { log };
        proof {
            lemma_log_view_congruent(r.log@, self.log@);
        }
        r
    }

    /// Append another buffer's staged mutations after this one's: the other
    /// buffer's slots win wherever both stage one key.
    pub fn absorb(&mut self, other: WriteBuffer)
        ensures
            final(self).staged() == old(self).staged().union_prefer_right(other.staged()),
    {
        let ghost tail_log = other.log@;
        let mut tail = other;
        self.log.append(&mut tail.log);
        proof {
            lemma_log_view_concat(old(self).log@, tail_log);
        }
    }
}

/// Whether some entry of the list names this key.
pub open spec fn key_listed(entries: Seq<(String, Option<Vec<u8>>)>, k: Seq<char>) -> bool {
    exists|m: int| 0 <= m < entries.len() && #[trigger] entries[m].0@ == k
}

/// Whether some entry of the list names this key.
fn contains_key_among(entries: &Vec<(String, Option<Vec<u8>>)>, key: &String) -> (r: bool)
    ensures
        r == key_listed(entries@, key@),
{
    let mut i: usize = 0;
    while i < entries.len()
        invariant
            i <= entries@.len(),
            forall|m: int| 0 <= m < i ==> #[trigger] entries@[m].0@ != key@,
        decreases entries@.len() - i,
    {
        if entries[i].0 == *key {
            return true;
        }
        i = i + 1;
    }
    false
}

/// An owned copy of a byte sequence.
fn copy_bytes(v: &[u8]) -> (r: Vec<u8>)
    ensures
        r@ == v@,
{
    let mut r: Vec<u8> = Vec::new();
    let mut i: usize = 0;
    while i < v.len()
        invariant
            i <= v@.len(),
            r@ == v@.subrange(0, i as int),
        decreases v@.len() - i,
    {
        r.push(v[i]);
        i = i + 1;
        proof {
            assert(r@ =~= v@.subrange(0, i as int));
        }
    }
    proof {
        assert(r@ =~= v@);
    }
    r
}

} // verus!
