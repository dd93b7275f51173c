//! A read-only view of the memory of another process: its segments by address, and typed
//! values decoded from them.
//!
//! Values are stored as on x86-64: little-endian, each at an address that is a multiple of its
//! alignment.

use vstd::prelude::*;

pub mod dump;
pub mod find;
pub mod maps;
pub mod types;

verus! {

/// The number that `bytes` hold, least significant byte first.
pub open spec fn le_value(bytes: Seq<u8>) -> nat
    decreases bytes.len(),
{
    if bytes.len() == 0 {
        0
    } else {
        bytes[0] as nat + 256 * le_value(bytes.drop_first())
    }
}

/// The number that two bytes hold.
pub proof fn lemma_le_value_2(s: Seq<u8>)
    requires
        s.len() == 2,
    ensures
        le_value(s) == s[0] + 256 * s[1],
{
    reveal_with_fuel(le_value, 3);
    assert(s.drop_first()[0] == s[1]);
}

/// The number that four bytes hold.
pub proof fn lemma_le_value_4(s: Seq<u8>)
    requires
        s.len() == 4,
    ensures
        le_value(s) == s[0] + 256 * (s[1] + 256 * (s[2] + 256 * s[3])),
{
    let t = s.drop_first();
    let u = t.drop_first();
    lemma_le_value_2(u);
    assert(u[0] == s[2] && u[1] == s[3]);
    assert(t[0] == s[1]);
    assert(le_value(t) == t[0] + 256 * le_value(u));
    assert(le_value(s) == s[0] + 256 * le_value(t));
}

/// The number that eight bytes hold.
pub proof fn lemma_le_value_8(s: Seq<u8>)
    requires
        s.len() == 8,
    ensures
        le_value(s) == s[0] + 256 * (s[1] + 256 * (s[2] + 256 * (s[3] + 256 * (s[4] + 256 * (s[5]
            + 256 * (s[6] + 256 * s[7])))))),
{
    let a = s.drop_first();
    let b = a.drop_first();
    let c = b.drop_first();
    let d = c.drop_first();
    lemma_le_value_4(d);
    assert(d[0] == s[4] && d[1] == s[5] && d[2] == s[6] && d[3] == s[7]);
    assert(a[0] == s[1]);
    assert(b[0] == s[2]);
    assert(c[0] == s[3]);
    assert(le_value(c) == c[0] + 256 * le_value(d));
    assert(le_value(b) == b[0] + 256 * le_value(c));
    assert(le_value(a) == a[0] + 256 * le_value(b));
    assert(le_value(s) == s[0] + 256 * le_value(a));
}

/// Reads two bytes as a number.
pub fn read_u16(bytes: &[u8], offset: usize) -> (r: u16)
    requires
        offset + 2 <= bytes@.len(),
    ensures
        r == le_value(bytes@.subrange(offset as int, offset + 2)),
{
    proof {
        lemma_le_value_2(bytes@.subrange(offset as int, offset + 2));
    }
    (bytes[offset] as u16) + 256 * (bytes[offset + 1] as u16)
}

/// Reads four bytes as a number.
pub fn read_u32(bytes: &[u8], offset: usize) -> (r: u32)
    requires
        offset + 4 <= bytes@.len(),
    ensures
        r == le_value(bytes@.subrange(offset as int, offset + 4)),
{
    proof {
        lemma_le_value_4(bytes@.subrange(offset as int, offset + 4));
    }
    let b0 = bytes[offset] as u32;
    let b1 = bytes[offset + 1] as u32;
    let b2 = bytes[offset + 2] as u32;
    let b3 = bytes[offset + 3] as u32;
    b0 + 256 * (b1 + 256 * (b2 + 256 * b3))
}

/// Reads eight bytes as a number.
pub fn read_u64(bytes: &[u8], offset: usize) -> (r: u64)
    requires
        offset + 8 <= bytes@.len(),
    ensures
        r == le_value(bytes@.subrange(offset as int, offset + 8)),
{
    proof {
        lemma_le_value_8(bytes@.subrange(offset as int, offset + 8));
    }
    let b0 = bytes[offset] as u64;
    let b1 = bytes[offset + 1] as u64;
    let b2 = bytes[offset + 2] as u64;
    let b3 = bytes[offset + 3] as u64;
    let b4 = bytes[offset + 4] as u64;
    let b5 = bytes[offset + 5] as u64;
    let b6 = bytes[offset + 6] as u64;
    let b7 = bytes[offset + 7] as u64;
    b0 + 256 * (b1 + 256 * (b2 + 256 * (b3 + 256 * (b4 + 256 * (b5 + 256 * (b6 + 256 * b7))))))
}

/// A type of plain data: every run of `size()` bytes is a value of it.
pub trait Pod: Sized {
    /// Number of bytes of a value.
    open spec fn size() -> nat {
        0
    }

    /// The alignment of a value: its address is a multiple of this.
    open spec fn align() -> nat {
        1
    }

    /// The value that `bytes` hold.
    open spec fn parse(bytes: Seq<u8>) -> Self {
        vstd::pervasive::arbitrary()
    }

    /// Number of bytes of a value.
    fn size_of() -> (n: usize)
        ensures
            n == Self::size(),
    ;

    /// The alignment of a value.
    fn align_of() -> (n: usize)
        ensures
            n == Self::align(),
            n > 0,
    ;

    /// Reads the value at `offset` in `bytes`.
    fn read(bytes: &[u8], offset: usize) -> (r: Self)
        requires
            offset + Self::size() <= bytes@.len(),
        ensures
            r == Self::parse(bytes@.subrange(offset as int, offset + Self::size())),
    ;
}

impl Pod for u8 {
    open spec fn size() -> nat {
        1
    }

    open spec fn align() -> nat {
        1
    }

    open spec fn parse(bytes: Seq<u8>) -> u8 {
        bytes[0]
    }

    fn size_of() -> (n: usize) {
        1
    }

    fn align_of() -> (n: usize) {
        1
    }

    fn read(bytes: &[u8], offset: usize) -> (r: u8) {
        bytes[offset]
    }
}

impl Pod for u16 {
    open spec fn size() -> nat {
        2
    }

    open spec fn align() -> nat {
        2
    }

    open spec fn parse(bytes: Seq<u8>) -> u16 {
        le_value(bytes) as u16
    }

    fn size_of() -> (n: usize) {
        2
    }

    fn align_of() -> (n: usize) {
        2
    }

    fn read(bytes: &[u8], offset: usize) -> (r: u16) {
        read_u16(bytes, offset)
    }
}

impl Pod for u32 {
    open spec fn size() -> nat {
        4
    }

    open spec fn align() -> nat {
        4
    }

    open spec fn parse(bytes: Seq<u8>) -> u32 {
        le_value(bytes) as u32
    }

    fn size_of() -> (n: usize) {
        4
    }

    fn align_of() -> (n: usize) {
        4
    }

    fn read(bytes: &[u8], offset: usize) -> (r: u32) {
        read_u32(bytes, offset)
    }
}

impl Pod for u64 {
    open spec fn size() -> nat {
        8
    }

    open spec fn align() -> nat {
        8
    }

    open spec fn parse(bytes: Seq<u8>) -> u64 {
        le_value(bytes) as u64
    }

    fn size_of() -> (n: usize) {
        8
    }

    fn align_of() -> (n: usize) {
        8
    }

    fn read(bytes: &[u8], offset: usize) -> (r: u64) {
        read_u64(bytes, offset)
    }
}

impl Pod for i8 {
    open spec fn size() -> nat {
        1
    }

    open spec fn align() -> nat {
        1
    }

    open spec fn parse(bytes: Seq<u8>) -> i8 {
        bytes[0] as i8
    }

    fn size_of() -> (n: usize) {
        1
    }

    fn align_of() -> (n: usize) {
        1
    }

    fn read(bytes: &[u8], offset: usize) -> (r: i8) {
        #[verifier::truncate]
        (bytes[offset] as i8)
    }
}

impl Pod for i16 {
    open spec fn size() -> nat {
        2
    }

    open spec fn align() -> nat {
        2
    }

    open spec fn parse(bytes: Seq<u8>) -> i16 {
        (le_value(bytes) as u16) as i16
    }

    fn size_of() -> (n: usize) {
        2
    }

    fn align_of() -> (n: usize) {
        2
    }

    fn read(bytes: &[u8], offset: usize) -> (r: i16) {
        #[verifier::truncate]
        (read_u16(bytes, offset) as i16)
    }
}

impl Pod for i32 {
    open spec fn size() -> nat {
        4
    }

    open spec fn align() -> nat {
        4
    }

    open spec fn parse(bytes: Seq<u8>) -> i32 {
        (le_value(bytes) as u32) as i32
    }

    fn size_of() -> (n: usize) {
        4
    }

    fn align_of() -> (n: usize) {
        4
    }

    fn read(bytes: &[u8], offset: usize) -> (r: i32) {
        #[verifier::truncate]
        (read_u32(bytes, offset) as i32)
    }
}

impl Pod for i64 {
    open spec fn size() -> nat {
        8
    }

    open spec fn align() -> nat {
        8
    }

    open spec fn parse(bytes: Seq<u8>) -> i64 {
        (le_value(bytes) as u64) as i64
    }

    fn size_of() -> (n: usize) {
        8
    }

    fn align_of() -> (n: usize) {
        8
    }

    fn read(bytes: &[u8], offset: usize) -> (r: i64) {
        #[verifier::truncate]
        (read_u64(bytes, offset) as i64)
    }
}

/// How many of the first `m` of the ascending `keys` are at most `x`.
pub open spec fn rank(keys: Seq<u64>, x: u64, m: int) -> int
    decreases m,
{
    if m <= 0 {
        0
    } else if keys[m - 1] <= x {
        m
    } else {
        rank(keys, x, m - 1)
    }
}

/// The keys ascend strictly.
pub open spec fn ascending(keys: Seq<u64>) -> bool {
    forall|i: int, j: int| 0 <= i < j < keys.len() ==> keys[i] < keys[j]
}

/// The rank splits ascending keys into those at most `x` and those above.
pub proof fn lemma_rank(keys: Seq<u64>, x: u64, m: int)
    requires
        ascending(keys),
        0 <= m <= keys.len(),
    ensures
        0 <= rank(keys, x, m) <= m,
        forall|i: int| 0 <= i < rank(keys, x, m) ==> keys[i] <= x,
        forall|i: int| rank(keys, x, m) <= i < m ==> keys[i] > x,
    decreases m,
{
    if m > 0 {
        if keys[m - 1] <= x {
            assert forall|i: int| 0 <= i < m implies keys[i] <= x by {
                if i < m - 1 {
                    assert(keys[i] < keys[m - 1]);
                }
            }
        } else {
            lemma_rank(keys, x, m - 1);
        }
    }
}

/// Any split of ascending keys into those at most `x` and those above is at the rank.
pub proof fn lemma_rank_unique(keys: Seq<u64>, x: u64, m: int, r: int)
    requires
        ascending(keys),
        0 <= r <= m <= keys.len(),
        forall|i: int| 0 <= i < r ==> keys[i] <= x,
        forall|i: int| r <= i < m ==> keys[i] > x,
    ensures
        rank(keys, x, m) == r,
    decreases m,
{
    if m > 0 {
        if keys[m - 1] <= x {
            if r < m {
                assert(keys[m - 1] > x);
            }
        } else {
            lemma_rank_unique(keys, x, m - 1, r);
        }
    }
}

/// A slice is no longer than the address space.
pub proof fn lemma_slice_len(data: &[u8])
    ensures
        data@.len() <= usize::MAX,
{
    vstd::slice::axiom_spec_len(data);
}

/// A segment of memory: the bytes from the address `base` on.
#[derive(Clone, Copy, Debug)]
pub struct Segment<'a> {
    pub base: u64,
    pub data: &'a [u8],
}

/// The memory of a process: its segments, by ascending address.
#[derive(Debug)]
pub struct Memory<'a> {
    pub segs: Vec<Segment<'a>>,
}

impl<'a> Memory<'a> {
    /// The addresses at which the segments begin.
    pub open spec fn bases(&self) -> Seq<u64> {
        Seq::new(self.segs@.len(), |i: int| self.segs@[i].base)
    }

    /// The segments are in ascending order of address, each address once.
    pub open spec fn wf(&self) -> bool {
        ascending(self.bases())
    }

    /// Whether a segment begins at `base`.
    pub open spec fn has(&self, base: u64) -> bool {
        exists|i: int| 0 <= i < self.segs@.len() && (#[trigger] self.segs@[i]).base == base
    }

    /// The bytes of the segment that begins at `base`.
    pub open spec fn data_at(&self, base: u64) -> Seq<u8> {
        let i = choose|i: int| 0 <= i < self.segs@.len() && (#[trigger] self.segs@[i]).base == base;
        self.segs@[i].data@
    }

    /// The segment that governs `addr`: the last one that begins at or before `addr`.
    pub open spec fn segment_of(&self, addr: u64) -> Option<Segment<'a>> {
        let r = rank(self.bases(), addr, self.segs@.len() as int);
        if r <= 0 {
            None
        } else {
            Some(self.segs@[r - 1])
        }
    }

    /// The bytes of the value of `size` bytes at `addr`, where its segment holds all of them.
    pub open spec fn bytes_at(&self, addr: u64, size: nat) -> Option<Seq<u8>> {
        match self.segment_of(addr) {
            None => None,
            Some(seg) => {
                let offset = addr - seg.base;
                if offset + size > seg.data@.len() {
                    None
                } else {
                    Some(seg.data@.subrange(offset, offset + size))
                }
            },
        }
    }

    /// The value of type `T` at `addr`: there is one where the segment that governs `addr`
    /// holds all bytes of the value and `addr` is aligned for `T`.
    pub open spec fn spec_get<T: Pod>(&self, addr: u64) -> Option<T> {
        match self.bytes_at(addr, T::size()) {
            None => None,
            Some(bytes) => if addr as int % T::align() as int != 0 {
                None
            } else {
                Some(T::parse(bytes))
            },
        }
    }

    /// The `len` values of type `T` from `addr` on.
    pub open spec fn spec_get_slice<T: Pod>(&self, addr: u64, len: usize) -> Option<Seq<T>> {
        match self.bytes_at(addr, len as nat * T::size()) {
            None => None,
            Some(bytes) => if addr as int % T::align() as int != 0 {
                None
            } else {
                Some(
                    Seq::new(
                        len as nat,
                        |i: int| T::parse(bytes.subrange(i * T::size(), (i + 1) * T::size())),
                    ),
                )
            },
        }
    }

    /// Position of the segment that governs `addr`, counted from one; zero where there is
    /// none.
    fn find(&self, addr: u64) -> (r: usize)
        requires
            self.wf(),
        ensures
            r == rank(self.bases(), addr, self.segs@.len() as int),
            r <= self.segs@.len(),
    {
        let ghost keys = self.bases();
        let mut lo: usize = 0;
        let mut hi: usize = self.segs.len();
        while lo < hi
            invariant
                self.wf(),
                keys == self.bases(),
                lo <= hi <= self.segs@.len(),
                forall|i: int| 0 <= i < lo ==> keys[i] <= addr,
                forall|i: int| hi <= i < keys.len() ==> keys[i] > addr,
            decreases hi - lo,
        {
            let mid = lo + (hi - lo) / 2;
            assert(keys[mid as int] == self.segs@[mid as int].base);
            if self.segs[mid].base <= addr {
                assert forall|i: int| 0 <= i < mid + 1 implies keys[i] <= addr by {
                    if i < mid {
                        assert(keys[i] < keys[mid as int]);
                    }
                }
                lo = mid + 1;
            } else {
                assert forall|i: int| mid <= i < keys.len() implies keys[i] > addr by {
                    if i > mid {
                        assert(keys[mid as int] < keys[i]);
                    }
                }
                hi = mid;
            }
        }
        proof {
            lemma_rank_unique(keys, addr, keys.len() as int, lo as int);
        }
        lo
    }

    /// The memory made of the given segments, each a run of bytes and the address at which it
    /// begins.  Of two segments that begin at the same address, the later one counts.
    pub fn new(seg_data: &[(&'a [u8], u64)]) -> (r: Memory<'a>)
        ensures
            r.wf(),
            forall|base: u64|
                r.has(base) <==> exists|i: int|
                    0 <= i < seg_data@.len() && (#[trigger] seg_data@[i]).1 == base,
            forall|i: int|
                0 <= i < seg_data@.len() && (forall|j: int|
                    i < j < seg_data@.len() ==> (#[trigger] seg_data@[j]).1 != seg_data@[i].1)
                    ==> r.data_at((#[trigger] seg_data@[i]).1) == seg_data@[i].0@,
    {
        let mut r = Memory { segs: Vec::new() };
        let mut k: usize = 0;
        while k < seg_data.len()
            invariant
                k <= seg_data@.len(),
                r.wf(),
                forall|base: u64|
                    r.has(base) <==> exists|i: int|
                        0 <= i < k && (#[trigger] seg_data@[i]).1 == base,
                forall|i: int|
                    0 <= i < k && (forall|j: int|
                        i < j < k ==> (#[trigger] seg_data@[j]).1 != seg_data@[i].1)
                        ==> r.data_at((#[trigger] seg_data@[i]).1) == seg_data@[i].0@,
            decreases seg_data@.len() - k,
        {
            let (data, base) = seg_data[k];
            let ghost before = r;
            r.put(base, data);
            proof {
                assert forall|b: u64|
                    r.has(b) <==> exists|i: int|
                        0 <= i < k + 1 && (#[trigger] seg_data@[i]).1 == b by {
                    if b == base {
                        assert(seg_data@[k as int].1 == b);
                    } else {
                        if before.has(b) {
                            let i = choose|i: int|
                                0 <= i < k && (#[trigger] seg_data@[i]).1 == b;
                            assert(seg_data@[i].1 == b);
                        }
                        if exists|i: int| 0 <= i < k + 1 && (#[trigger] seg_data@[i]).1 == b {
                            let i = choose|i: int|
                                0 <= i < k + 1 && (#[trigger] seg_data@[i]).1 == b;
                            assert(i < k);
                        }
                    }
                }
                assert forall|i: int|
                    0 <= i < k + 1 && (forall|j: int|
                        i < j < k + 1 ==> (#[trigger] seg_data@[j]).1
                            != seg_data@[i].1) implies r.data_at((#[trigger] seg_data@[i]).1)
                    == seg_data@[i].0@ by {
                    if i < k {
                        assert(seg_data@[k as int].1 != seg_data@[i].1);
                        assert forall|j: int| i < j < k implies (#[trigger] seg_data@[j]).1
                            != seg_data@[i].1 by {}
                    }
                }
            }
            k += 1;
        }
        r
    }

    /// What a memory is after the segment at the position `pos` has given way to one that
    /// begins at the same address: the other segments are as they were.
    pub proof fn lemma_replaced(&self, before: &Memory<'a>, pos: int, base: u64, data: &'a [u8])
        requires
            before.wf(),
            0 <= pos < before.segs@.len(),
            before.segs@[pos].base == base,
            self.segs@ == before.segs@.update(pos, Segment { base, data }),
        ensures
            self.wf(),
            self.has(base),
            self.data_at(base) == data@,
            forall|b: u64| b != base ==> self.has(b) == before.has(b),
            forall|b: u64|
                b != base && before.has(b) ==> self.data_at(b) == before.data_at(b),
    {
        let segs = before.segs@;
        let now = self.segs@;
        assert(self.bases() =~= before.bases());
        assert(now[pos].base == base);
        self.lemma_data_at(pos);
        assert forall|b: u64| b != base implies self.has(b) == before.has(b) by {
            if before.has(b) {
                let i = choose|i: int| 0 <= i < segs.len() && (#[trigger] segs[i]).base == b;
                assert(now[i].base == b);
            }
            if self.has(b) {
                let i = choose|i: int| 0 <= i < now.len() && (#[trigger] now[i]).base == b;
                assert(segs[i].base == b);
            }
        }
        assert forall|b: u64| b != base && before.has(b) implies self.data_at(b)
            == before.data_at(b) by {
            let i = choose|i: int| 0 <= i < segs.len() && (#[trigger] segs[i]).base == b;
            before.lemma_data_at(i);
            assert(now[i] == segs[i]);
            self.lemma_data_at(i);
        }
    }

    /// What a memory is after a segment that begins at a new address has been put at the
    /// position `pos`, between the segments that begin before it and those that begin after
    /// it: the other segments are as they were.
    pub proof fn lemma_inserted(&self, before: &Memory<'a>, pos: int, base: u64, data: &'a [u8])
        requires
            before.wf(),
            0 <= pos <= before.segs@.len(),
            forall|i: int| 0 <= i < pos ==> (#[trigger] before.segs@[i]).base < base,
            forall|i: int| pos <= i < before.segs@.len() ==> (#[trigger] before.segs@[i]).base > base,
            self.segs@ == before.segs@.insert(pos, Segment { base, data }),
        ensures
            self.wf(),
            self.has(base),
            self.data_at(base) == data@,
            forall|b: u64| b != base ==> self.has(b) == before.has(b),
            forall|b: u64|
                b != base && before.has(b) ==> self.data_at(b) == before.data_at(b),
    {
        let segs = before.segs@;
        let keys = before.bases();
        let now = self.segs@;
        segs.insert_ensures(pos, Segment { base, data });
        assert forall|i: int, j: int| 0 <= i < j < now.len() implies self.bases()[i]
            < self.bases()[j] by {
            let x = if i < pos { segs[i].base } else if i == pos { base } else { segs[i - 1].base };
            let y = if j < pos { segs[j].base } else if j == pos { base } else { segs[j - 1].base };
            assert(self.bases()[i] == x);
            assert(self.bases()[j] == y);
            if i < pos && j < pos {
                assert(keys[i] < keys[j]);
            }
            if i > pos && j > pos {
                assert(keys[i - 1] < keys[j - 1]);
            }
        }
        assert(now[pos].base == base);
        self.lemma_data_at(pos);
        assert forall|b: u64| b != base implies self.has(b) == before.has(b) by {
            if before.has(b) {
                let i = choose|i: int| 0 <= i < segs.len() && (#[trigger] segs[i]).base == b;
                if i < pos {
                    assert(now[i].base == b);
                } else {
                    assert(now[i + 1].base == b);
                }
            }
            if self.has(b) {
                let i = choose|i: int| 0 <= i < now.len() && (#[trigger] now[i]).base == b;
                if i < pos {
                    assert(segs[i].base == b);
                } else {
                    assert(segs[i - 1].base == b);
                }
            }
        }
        assert forall|b: u64| b != base && before.has(b) implies self.data_at(b)
            == before.data_at(b) by {
            let i = choose|i: int| 0 <= i < segs.len() && (#[trigger] segs[i]).base == b;
            before.lemma_data_at(i);
            if i < pos {
                assert(now[i] == segs[i]);
                self.lemma_data_at(i);
            } else {
                assert(now[i + 1] == segs[i]);
                self.lemma_data_at(i + 1);
            }
        }
    }

    /// Adds the segment that begins at `base`, in place of one that begins there already.
    pub fn put(&mut self, base: u64, data: &'a [u8])
        requires
            old(self).wf(),
        ensures
            final(self).wf(),
            final(self).has(base),
            final(self).data_at(base) == data@,
            forall|b: u64| b != base ==> final(self).has(b) == old(self).has(b),
            forall|b: u64|
                b != base && old(self).has(b) ==> final(self).data_at(b) == old(self).data_at(b),
    {
        let pos = self.find(base);
        let ghost keys = self.bases();
        proof {
            lemma_rank(keys, base, keys.len() as int);
            assert forall|i: int| 0 <= i < keys.len() implies keys[i] == (
            #[trigger] self.segs@[i]).base by {}
        }
        if pos > 0 && self.segs[pos - 1].base == base {
            self.segs[pos - 1] = Segment { base, data };
            proof {
                self.lemma_replaced(old(self), pos - 1, base, data);
            }
        } else {
            self.segs.insert(pos, Segment { base, data });
            proof {
                assert forall|i: int| 0 <= i < pos implies (#[trigger] old(self).segs@[i]).base
                    < base by {
                    assert(keys[i] <= base);
                    if pos > 0 {
                        assert(keys[pos - 1] == old(self).segs@[pos - 1].base);
                        if i < pos - 1 {
                            assert(keys[i] < keys[pos - 1]);
                        }
                    }
                }
                assert forall|i: int| pos <= i < old(self).segs@.len() implies (
                #[trigger] old(self).segs@[i]).base > base by {
                    assert(keys[i] > base);
                }
                self.lemma_inserted(old(self), pos as int, base, data);
            }
        }
    }

    /// The bytes of the segment that begins at an address are those of the one segment that
    /// begins there.
    pub proof fn lemma_data_at(&self, i: int)
        requires
            self.wf(),
            0 <= i < self.segs@.len(),
        ensures
            self.has(self.segs@[i].base),
            self.data_at(self.segs@[i].base) == self.segs@[i].data@,
    {
        let base = self.segs@[i].base;
        let j = choose|j: int| 0 <= j < self.segs@.len() && (#[trigger] self.segs@[j]).base == base;
        assert(self.bases()[i] == base);
        assert(self.bases()[j] == base);
        if i < j {
            assert(self.bases()[i] < self.bases()[j]);
        }
        if j < i {
            assert(self.bases()[j] < self.bases()[i]);
        }
    }

    /// The segments, by ascending address: for each the address at which it begins, and its
    /// bytes.
    pub fn segments(&self) -> (r: Vec<(u64, &'a [u8])>)
        ensures
            r@.len() == self.segs@.len(),
            forall|i: int|
                0 <= i < r@.len() ==> (#[trigger] r@[i]).0 == self.segs@[i].base && r@[i].1@
                    == self.segs@[i].data@,
    {
        let mut r: Vec<(u64, &'a [u8])> = Vec::new();
        let mut i: usize = 0;
        while i < self.segs.len()
            invariant
                i <= self.segs@.len(),
                r@.len() == i,
                forall|k: int|
                    0 <= k < i ==> (#[trigger] r@[k]).0 == self.segs@[k].base && r@[k].1@
                        == self.segs@[k].data@,
            decreases self.segs@.len() - i,
        {
            r.push((self.segs[i].base, self.segs[i].data));
            i += 1;
        }
        r
    }

    /// The segment that governs `addr`, and where in it `addr` lies, for a value of `size`
    /// bytes that the segment holds whole.
    fn locate(&self, addr: u64, size: usize) -> (r: Option<(Segment<'a>, usize)>)
        requires
            self.wf(),
        ensures
            match r {
                Some((seg, offset)) => {
                    &&& self.segment_of(addr) == Some(seg)
                    &&& offset == addr - seg.base
                    &&& offset + size <= seg.data@.len()
                    &&& self.bytes_at(addr, size as nat) == Some(
                        seg.data@.subrange(offset as int, offset + size),
                    )
                },
                None => self.bytes_at(addr, size as nat) is None,
            },
    {
        let pos = self.find(addr);
        if pos == 0 {
            return None;
        }
        proof {
            lemma_rank(self.bases(), addr, self.segs@.len() as int);
            assert(self.bases()[pos - 1] == self.segs@[pos - 1].base);
        }
        let seg = self.segs[pos - 1];
        let offset: u64 = addr - seg.base;
        let len = seg.data.len();
        if offset > len as u64 || size > len - offset as usize {
            return None;
        }
        Some((seg, offset as usize))
    }

    /// The value of type `T` at `addr`.
    pub fn get<T: Pod>(&self, addr: u64) -> (r: Option<T>)
        requires
            self.wf(),
        ensures
            r == self.spec_get::<T>(addr),
    {
        match self.locate(addr, T::size_of()) {
            None => None,
            Some((seg, offset)) => {
                if addr % (T::align_of() as u64) != 0 {
                    return None;
                }
                Some(T::read(seg.data, offset))
            },
        }
    }

    /// The `len` values of type `T` from `addr` on.
    pub fn get_slice<T: Pod>(&self, addr: u64, len: usize) -> (r: Option<Vec<T>>)
        requires
            self.wf(),
        ensures
            match r {
                Some(v) => self.spec_get_slice::<T>(addr, len) == Some(v@),
                None => self.spec_get_slice::<T>(addr, len) is None,
            },
    {
        let size = T::size_of();
        let total = match len.checked_mul(size) {
            None => {
                proof {
                    assert(len as nat * T::size() > usize::MAX);
                    let r = rank(self.bases(), addr, self.segs@.len() as int);
                    lemma_rank(self.bases(), addr, self.segs@.len() as int);
                    if r > 0 {
                        lemma_slice_len(self.segs@[r - 1].data);
                        assert(self.bases()[r - 1] == self.segs@[r - 1].base);
                    }
                }
                return None;
            },
            Some(total) => total,
        };
        match self.locate(addr, total) {
            None => None,
            Some((seg, offset)) => {
                if addr % (T::align_of() as u64) != 0 {
                    return None;
                }
                let ghost bytes = seg.data@.subrange(offset as int, offset + total);
                let data_len = seg.data.len();
                let mut out: Vec<T> = Vec::new();
                let mut i: usize = 0;
                while i < len
                    invariant
                        i <= len,
                        size == T::size(),
                        total == len * size,
                        offset + total <= seg.data@.len(),
                        data_len == seg.data@.len(),
                        bytes == seg.data@.subrange(offset as int, offset + total),
                        out@.len() == i,
                        forall|k: int|
                            0 <= k < i ==> #[trigger] out@[k] == T::parse(
                                bytes.subrange(k * T::size(), (k + 1) * T::size()),
                            ),
                    decreases len - i,
                {
                    assert(0 <= i * size && i * size + size <= len * size && (i + 1) * size == i
                        * size + size) by (nonlinear_arith)
                        requires
                            0 <= i < len,
                            size >= 0,
                    ;
                    let at = offset + i * size;
                    proof {
                        assert(bytes.subrange(i * size, (i + 1) * size) =~= seg.data@.subrange(
                            at as int,
                            at + size,
                        ));
                    }
                    out.push(T::read(seg.data, at));
                    i += 1;
                }
                assert(out@ =~= self.spec_get_slice::<T>(addr, len)->0);
                Some(out)
            },
        }
    }

    /// The value of type `U` at `addr`, where a value of type `T` lies: none unless the
    /// segment holds the value of type `T` whole.
    pub fn cast<T: Pod, U: Pod>(&self, addr: u64) -> (r: Option<U>)
        requires
            self.wf(),
        ensures
            r == if self.bytes_at(addr, T::size()) is Some {
                self.spec_get::<U>(addr)
            } else {
                None
            },
    {
        match self.locate(addr, T::size_of()) {
            None => None,
            Some(_) => self.get::<U>(addr),
        }
    }

    /// The address `addr`, where the memory holds a whole value of type `T` there.
    pub fn addr<T: Pod>(&self, addr: u64) -> (r: Option<u64>)
        requires
            self.wf(),
        ensures
            r == if self.bytes_at(addr, T::size()) is Some {
                Some(addr)
            } else {
                None
            },
    {
        match self.locate(addr, T::size_of()) {
            None => None,
            Some(_) => Some(addr),
        }
    }
}

} // verus!
