//! The mapped regions of a process.

use crate::memory::{ascending, lemma_rank, lemma_rank_unique, rank};
use vstd::prelude::*;

verus! {

/// The mapped regions of a process: for each the address at which it begins, and its length,
/// by ascending address.
#[derive(Debug)]
pub struct Maps {
    pub m: Vec<(usize, usize)>,
}

/// Whether the addresses from `start` up to `end` are mapped, going from region to region:
/// the region that governs an address is the last one that begins at or before it, and the
/// address after its end is looked up next.
pub open spec fn covers(m: Seq<(usize, usize)>, start: int, end: int) -> bool
    decreases end - start,
{
    if start >= end {
        true
    } else {
        let r = rank(region_keys(m), start as u64, m.len() as int);
        if r <= 0 {
            false
        } else {
            let seg_end = m[r - 1].0 + m[r - 1].1;
            if seg_end <= start {
                false
            } else if seg_end >= end {
                true
            } else {
                covers(m, seg_end, end)
            }
        }
    }
}

/// The addresses at which the regions begin.
pub open spec fn region_keys(m: Seq<(usize, usize)>) -> Seq<u64> {
    Seq::new(m.len(), |i: int| m[i].0 as u64)
}

impl Maps {
    /// The addresses at which the regions begin.
    pub open spec fn keys(&self) -> Seq<u64> {
        region_keys(self.m@)
    }

    /// The regions are in ascending order of address, each address once.
    pub open spec fn wf(&self) -> bool {
        ascending(self.keys())
    }

    /// Whether a region begins at `addr`.
    pub open spec fn has(&self, addr: usize) -> bool {
        exists|i: int| 0 <= i < self.m@.len() && (#[trigger] self.m@[i]).0 == addr
    }

    /// Position of the region that begins at `addr`.
    pub open spec fn index_of(&self, addr: usize) -> int {
        choose|i: int| 0 <= i < self.m@.len() && (#[trigger] self.m@[i]).0 == addr
    }

    /// The length of the region that begins at `addr`.
    pub open spec fn len_at(&self, addr: usize) -> usize {
        self.m@[self.index_of(addr)].1
    }

    /// No regions.
    pub fn new() -> (r: Maps)
        ensures
            r.wf(),
            r.m@.len() == 0,
    {
        Maps { m: Vec::new() }
    }

    /// Number of regions.
    pub fn len(&self) -> (n: usize)
        ensures
            n == self.m@.len(),
    {
        self.m.len()
    }

    /// How many regions begin at or before `addr`.
    fn find(&self, addr: usize) -> (r: usize)
        requires
            self.wf(),
        ensures
            r == rank(self.keys(), addr as u64, self.m@.len() as int),
            r <= self.m@.len(),
    {
        let ghost keys = self.keys();
        let mut lo: usize = 0;
        let mut hi: usize = self.m.len();
        while lo < hi
            invariant
                self.wf(),
                keys == self.keys(),
                lo <= hi <= self.m@.len(),
                forall|i: int| 0 <= i < lo ==> keys[i] <= addr as u64,
                forall|i: int| hi <= i < keys.len() ==> keys[i] > addr as u64,
            decreases hi - lo,
        {
            let mid = lo + (hi - lo) / 2;
            assert(keys[mid as int] == self.m@[mid as int].0 as u64);
            if self.m[mid].0 <= addr {
                assert forall|i: int| 0 <= i < mid + 1 implies keys[i] <= addr as u64 by {
                    if i < mid {
                        assert(keys[i] < keys[mid as int]);
                    }
                }
                lo = mid + 1;
            } else {
                assert forall|i: int| mid <= i < keys.len() implies keys[i] > addr as u64 by {
                    if i > mid {
                        assert(keys[mid as int] < keys[i]);
                    }
                }
                hi = mid;
            }
        }
        proof {
            lemma_rank_unique(keys, addr as u64, keys.len() as int, lo as int);
        }
        lo
    }

    /// Records the region of `len` bytes that begins at `addr`, in place of one that begins
    /// there already.
    #[verifier::rlimit(60)]
    pub fn insert(&mut self, addr: usize, len: usize)
        requires
            old(self).wf(),
        ensures
            final(self).wf(),
            final(self).has(addr),
            final(self).len_at(addr) == len,
            forall|a: usize| a != addr ==> final(self).has(a) == old(self).has(a),
            forall|a: usize|
                a != addr && old(self).has(a) ==> final(self).len_at(a) == old(self).len_at(a),
            final(self).m@.len() == old(self).m@.len() + if old(self).has(addr) {
                0int
            } else {
                1int
            },
    {
        let pos = self.find(addr);
        let ghost keys = self.keys();
        let ghost before = self.m@;
        proof {
            lemma_rank(keys, addr as u64, keys.len() as int);
        }
        if pos > 0 && self.m[pos - 1].0 == addr {
            self.m[pos - 1] = (addr, len);
            proof {
                let now = self.m@;
                assert(self.keys() =~= keys) by {
                    assert(keys[pos - 1] == before[pos - 1].0 as u64);
                }
                assert(now[pos - 1].0 == addr);
                assert(before[pos - 1].0 == addr);
                self.lemma_len_at(pos - 1);
                assert forall|a: usize| a != addr implies self.has(a) == old(self).has(a) by {
                    if old(self).has(a) {
                        let i = old(self).index_of(a);
                        assert(now[i].0 == a);
                    }
                    if self.has(a) {
                        let i = self.index_of(a);
                        assert(before[i].0 == a);
                    }
                }
                assert forall|a: usize| a != addr && old(self).has(a) implies self.len_at(a)
                    == old(self).len_at(a) by {
                    let i = old(self).index_of(a);
                    old(self).lemma_len_at(i);
                    assert(now[i] == before[i]);
                    self.lemma_len_at(i);
                }
            }
        } else {
            proof {
                if old(self).has(addr) {
                    let i = old(self).index_of(addr);
                    assert(keys[i] == addr as u64);
                    if pos > 0 {
                        assert(keys[pos - 1] == before[pos - 1].0 as u64);
                        if i < pos - 1 {
                            assert(keys[i] < keys[pos - 1]);
                        }
                    }
                    assert(false);
                }
            }
            self.m.insert(pos, (addr, len));
            proof {
                let now = self.m@;
                before.insert_ensures(pos as int, (addr, len));
                assert forall|i: int, j: int| 0 <= i < j < now.len() implies self.keys()[i]
                    < self.keys()[j] by {
                    let x = if i < pos { keys[i] } else if i == pos { addr as u64 } else { keys[i - 1] };
                    let y = if j < pos { keys[j] } else if j == pos { addr as u64 } else { keys[j - 1] };
                    assert(self.keys()[i] == x);
                    assert(self.keys()[j] == y);
                    if i < pos && j > pos {
                        assert(keys[i] < keys[j - 1]);
                    }
                    if j == pos && pos > 0 {
                        assert(keys[pos - 1] == before[pos - 1].0 as u64);
                        assert(keys[i] <= keys[pos - 1]);
                    }
                }
                assert(now[pos as int].0 == addr);
                self.lemma_len_at(pos as int);
                assert forall|a: usize| a != addr implies self.has(a) == old(self).has(a) by {
                    if old(self).has(a) {
                        let i = old(self).index_of(a);
                        if i < pos {
                            assert(now[i].0 == a);
                        } else {
                            assert(now[i + 1].0 == a);
                        }
                    }
                    if self.has(a) {
                        let i = self.index_of(a);
                        if i < pos {
                            assert(before[i].0 == a);
                        } else {
                            assert(before[i - 1].0 == a);
                        }
                    }
                }
                assert forall|a: usize| a != addr && old(self).has(a) implies self.len_at(a)
                    == old(self).len_at(a) by {
                    let i = old(self).index_of(a);
                    old(self).lemma_len_at(i);
                    if i < pos {
                        assert(now[i] == before[i]);
                        self.lemma_len_at(i);
                    } else {
                        assert(now[i + 1] == before[i]);
                        self.lemma_len_at(i + 1);
                    }
                }
            }
        }
    }

    /// The length recorded for an address is that of the one region that begins there.
    pub proof fn lemma_len_at(&self, i: int)
        requires
            self.wf(),
            0 <= i < self.m@.len(),
        ensures
            self.has(self.m@[i].0),
            self.len_at(self.m@[i].0) == self.m@[i].1,
    {
        let addr = self.m@[i].0;
        assert(self.m@[i].0 == addr);
        assert(self.has(addr));
        let j = self.index_of(addr);
        assert(0 <= j < self.m@.len() && self.m@[j].0 == addr);
        assert(self.keys()[i] == addr as u64);
        assert(self.keys()[j] == addr as u64);
        if i < j {
            assert(self.keys()[i] < self.keys()[j]);
        }
        if j < i {
            assert(self.keys()[j] < self.keys()[i]);
        }
    }

    /// Whether the `len` bytes from `addr` on are mapped.  They are not where `addr + len`
    /// exceeds the address space.
    pub fn contains(&self, addr: usize, len: usize) -> (r: bool)
        requires
            self.wf(),
        ensures
            r == (addr + len <= usize::MAX && covers(self.m@, addr as int, addr + len)),
    {
        let end = match addr.checked_add(len) {
            None => {
                return false;
            },
            Some(end) => end,
        };
        let mut start = addr;
        while start < end
            invariant
                self.wf(),
                end == addr + len,
                start <= end || covers(self.m@, start as int, end as int),
                covers(self.m@, start as int, end as int) == covers(
                    self.m@,
                    addr as int,
                    end as int,
                ),
            decreases end - start,
        {
            let pos = self.find(start);
            if pos == 0 {
                return false;
            }
            let seg = self.m[pos - 1];
            let seg_end = match seg.0.checked_add(seg.1) {
                None => {
                    // The region runs to the end of the address space.
                    return true;
                },
                Some(seg_end) => seg_end,
            };
            if seg_end <= start {
                return false;
            }
            if seg_end >= end {
                return true;
            }
            start = seg_end;
        }
        true
    }

    /// The regions, by ascending address: for each the address at which it begins, and its
    /// length.
    pub fn iter(&self) -> (r: Vec<(usize, usize)>)
        ensures
            r@ == self.m@,
    {
        let mut r: Vec<(usize, usize)> = Vec::new();
        let mut i: usize = 0;
        while i < self.m.len()
            invariant
                i <= self.m@.len(),
                r@ == self.m@.take(i as int),
            decreases self.m@.len() - i,
        {
            r.push(self.m[i]);
            i += 1;
            assert(r@ =~= self.m@.take(i as int));
        }
        assert(self.m@.take(i as int) =~= self.m@);
        r
    }
}

} // verus!
