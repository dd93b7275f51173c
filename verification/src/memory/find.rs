//! Scans of the memory for values of a given shape, and comparisons of what was read.

use crate::memory::types::{Item, ItemDef};
use crate::memory::{lemma_slice_len, Memory, Pod};
use std::collections::BTreeMap;
use vstd::std_specs::btree::into_iter;
use vstd::std_specs::iter::IteratorSpec;
use vstd::prelude::*;

verus! {

/// The value of type `T` at `offset` in `bytes`.
pub open spec fn value_at<T: Pod>(bytes: Seq<u8>, offset: int) -> T {
    T::parse(bytes.subrange(offset, offset + T::size()))
}

/// A value of type `T` can lie at `offset` in `bytes`: the offset is a multiple of the
/// alignment, and the bytes hold the value whole.
pub open spec fn fits_at<T: Pod>(bytes: Seq<u8>, offset: int) -> bool {
    0 <= offset && offset % (T::align() as int) == 0 && offset + T::size() <= bytes.len()
}

/// The values of type `T` in `bytes` that `filter` accepts, each with its offset, by
/// ascending offset.  Every offset at which a value can lie is tried.
pub fn find<T: Pod, F: Fn(&T) -> bool>(bytes: &[u8], filter: F) -> (out: Vec<(usize, T)>)
    requires
        T::align() > 0,
        forall|x: T| #[trigger] filter.requires((&x,)),
    ensures
        forall|k: int|
            0 <= k < out@.len() ==> {
                &&& fits_at::<T>(bytes@, (#[trigger] out@[k]).0 as int)
                &&& out@[k].1 == value_at::<T>(bytes@, out@[k].0 as int)
                &&& filter.ensures((&out@[k].1,), true)
            },
        forall|j: int, k: int| 0 <= j < k < out@.len() ==> out@[j].0 < out@[k].0,
        forall|offset: int|
            fits_at::<T>(bytes@, offset) ==> {
                ||| exists|k: int| 0 <= k < out@.len() && (#[trigger] out@[k]).0 == offset
                ||| filter.ensures((&#[trigger] value_at::<T>(bytes@, offset),), false)
            },
{
    let size = T::size_of();
    let align = T::align_of();
    let len = bytes.len();
    let mut out: Vec<(usize, T)> = Vec::new();
    let mut i: usize = 0;
    let mut done = size > len;
    while !done
        invariant
            size == T::size(),
            align == T::align(),
            align > 0,
            len == bytes@.len(),
            forall|x: T| #[trigger] filter.requires((&x,)),
            i as int % (align as int) == 0,
            !done ==> i + size <= len,
            forall|k: int|
                0 <= k < out@.len() ==> {
                    &&& fits_at::<T>(bytes@, (#[trigger] out@[k]).0 as int)
                    &&& out@[k].1 == value_at::<T>(bytes@, out@[k].0 as int)
                    &&& filter.ensures((&out@[k].1,), true)
                    &&& (out@[k].0 < i || done)
                },
            forall|j: int, k: int| 0 <= j < k < out@.len() ==> out@[j].0 < out@[k].0,
            forall|offset: int|
                fits_at::<T>(bytes@, offset) && (offset < i || done) ==> {
                    ||| exists|k: int| 0 <= k < out@.len() && (#[trigger] out@[k]).0 == offset
                    ||| filter.ensures((&#[trigger] value_at::<T>(bytes@, offset),), false)
                },
        decreases len - i + if done { 0int } else { 1int },
    {
        let value = T::read(bytes, i);
        let accepted = filter(&value);
        let ghost before = out@;
        if accepted {
            out.push((i, value));
        }
        let last = align > len - size - i;
        proof {
            assert forall|offset: int|
                fits_at::<T>(bytes@, offset) && (offset < i + align || last) implies {
                ||| exists|k: int| 0 <= k < out@.len() && (#[trigger] out@[k]).0 == offset
                ||| filter.ensures((&#[trigger] value_at::<T>(bytes@, offset),), false)
            } by {
                if offset < i {
                    if exists|k: int| 0 <= k < before.len() && (#[trigger] before[k]).0 == offset {
                        let k = choose|k: int|
                            0 <= k < before.len() && (#[trigger] before[k]).0 == offset;
                        assert(out@[k].0 == offset);
                    }
                } else {
                    lemma_aligned_between(i as int, offset, align as int);
                    if accepted {
                        assert(out@[out@.len() - 1].0 == offset);
                    }
                }
            }
        }
        if last {
            done = true;
        } else {
            proof {
                lemma_aligned_step(i as int, align as int);
            }
            i += align;
        }
    }
    out
}

/// No multiple of `align` lies strictly between a multiple and the next.
pub proof fn lemma_aligned_between(i: int, offset: int, align: int)
    requires
        align > 0,
        i % align == 0,
        offset % align == 0,
        i <= offset < i + align,
    ensures
        offset == i,
{
    vstd::arithmetic::div_mod::lemma_fundamental_div_mod(i, align);
    vstd::arithmetic::div_mod::lemma_fundamental_div_mod(offset, align);
    let a = i / align;
    let b = offset / align;
    assert(i == align * a);
    assert(offset == align * b);
    assert(a <= b < a + 1) by (nonlinear_arith)
        requires
            align > 0,
            align * a <= align * b < align * a + align,
    ;
}

/// The multiple of `align` after a multiple is a multiple.
pub proof fn lemma_aligned_step(i: int, align: int)
    requires
        align > 0,
        i % align == 0,
    ensures
        (i + align) % align == 0,
{
    vstd::arithmetic::div_mod::lemma_mod_adds(i, align, align);
    vstd::arithmetic::div_mod::lemma_mod_self_0(align);
}

/// The addresses that a scan of the memory has found, with how many bytes before and after
/// each are worth showing.
#[derive(Debug)]
pub struct FindInSegsResult {
    pub dump_before: usize,
    pub dump_after: usize,
    pub opts: Vec<u64>,
}

impl FindInSegsResult {
    /// The addresses found.
    pub fn opts(&self) -> (r: &Vec<u64>)
        ensures
            r@ == self.opts@,
    {
        &self.opts
    }

    /// The one address found.
    pub fn sole(&self) -> (r: u64)
        requires
            self.opts@.len() == 1,
        ensures
            r == self.opts@[0],
    {
        self.opts[0]
    }
}

/// A value of type `T` that `filter` accepts lies at `addr`, within one segment of the
/// memory, at a multiple of the alignment from where the segment begins.
pub open spec fn is_found<T: Pod, F: Fn(&T) -> bool>(mem: &Memory, filter: F, addr: u64) -> bool {
    exists|s: int, offset: int|
        0 <= s < mem.segs@.len() && fits_at::<T>(mem.segs@[s].data@, offset) && addr
            == mem.segs@[s].base + offset && filter.ensures(
            (&#[trigger] value_at::<T>(mem.segs@[s].data@, offset),),
            true,
        )
}

/// The scan has dealt with the value of type `T` at `offset` in segment `s`: its address is
/// among `opts`, or `filter` rejects it, or its address does not fit the address space.
pub open spec fn is_dealt_with<T: Pod, F: Fn(&T) -> bool>(
    mem: &Memory,
    filter: F,
    opts: Seq<u64>,
    s: int,
    offset: int,
) -> bool {
    ||| mem.segs@[s].base + offset > u64::MAX
    ||| opts.contains((mem.segs@[s].base + offset) as u64)
    ||| filter.ensures((&value_at::<T>(mem.segs@[s].data@, offset),), false)
}

/// Scans every segment of the memory for values of type `T` that `filter` accepts.  Values
/// whose address would not fit the address space are left out.
pub fn find_in_segs<T: Pod, F: Fn(&T) -> bool>(
    mem: &Memory,
    dump_before: usize,
    dump_after: usize,
    filter: F,
) -> (r: FindInSegsResult)
    requires
        T::align() > 0,
        forall|x: T| #[trigger] filter.requires((&x,)),
    ensures
        r.dump_before == dump_before,
        r.dump_after == if T::size() + dump_after > usize::MAX {
            usize::MAX
        } else {
            (T::size() + dump_after) as usize
        },
        forall|k: int| 0 <= k < r.opts@.len() ==> is_found::<T, F>(mem, filter, #[trigger] r.opts@[k]),
        forall|s: int, offset: int|
            0 <= s < mem.segs@.len() && fits_at::<T>(mem.segs@[s].data@, offset)
                ==> #[trigger] is_dealt_with::<T, F>(mem, filter, r.opts@, s, offset),
{
    let mut opts: Vec<u64> = Vec::new();
    let mut s: usize = 0;
    while s < mem.segs.len()
        invariant
            s <= mem.segs@.len(),
            T::align() > 0,
            forall|x: T| #[trigger] filter.requires((&x,)),
            forall|k: int| 0 <= k < opts@.len() ==> is_found::<T, F>(mem, filter, #[trigger] opts@[k]),
            forall|t: int, offset: int|
                0 <= t < s && fits_at::<T>(mem.segs@[t].data@, offset)
                    ==> #[trigger] is_dealt_with::<T, F>(mem, filter, opts@, t, offset),
        decreases mem.segs@.len() - s,
    {
        let seg = mem.segs[s];
        let found = find::<T, &F>(seg.data, &filter);
        proof {
            lemma_slice_len(seg.data);
        }
        let ghost start = opts@;
        let mut k: usize = 0;
        while k < found.len()
            invariant
                s < mem.segs@.len(),
                seg == mem.segs@[s as int],
                seg.data@.len() <= usize::MAX,
                k <= found@.len(),
                forall|j: int|
                    0 <= j < found@.len() ==> {
                        &&& fits_at::<T>(seg.data@, (#[trigger] found@[j]).0 as int)
                        &&& found@[j].1 == value_at::<T>(seg.data@, found@[j].0 as int)
                        &&& filter.ensures((&found@[j].1,), true)
                    },
                forall|j: int| 0 <= j < opts@.len() ==> is_found::<T, F>(mem, filter, #[trigger] opts@[j]),
                forall|j: int| 0 <= j < start.len() ==> opts@.contains(#[trigger] start[j]),
                forall|j: int|
                    0 <= j < k ==> seg.base + (#[trigger] found@[j]).0 > u64::MAX || opts@.contains(
                        (seg.base + found@[j].0) as u64,
                    ),
            decreases found@.len() - k,
        {
            let offset = found[k].0;
            let ghost before = opts@;
            if offset as u64 as usize == offset {
                match seg.base.checked_add(offset as u64) {
                    Some(addr) => {
                        opts.push(addr);
                        proof {
                            assert(filter.ensures(
                                (&value_at::<T>(mem.segs@[s as int].data@, offset as int),),
                                true,
                            ));
                            assert(is_found::<T, F>(mem, filter, addr));
                            assert(opts@[opts@.len() - 1] == addr);
                        }
                    },
                    None => {},
                }
            }
            proof {
                assert forall|j: int| 0 <= j < opts@.len() implies is_found::<T, F>(
                    mem,
                    filter,
                    #[trigger] opts@[j],
                ) by {
                    if j < before.len() {
                        assert(opts@[j] == before[j]);
                    }
                }
                assert forall|x: u64| before.contains(x) implies opts@.contains(x) by {
                    let j = choose|j: int| 0 <= j < before.len() && before[j] == x;
                    assert(opts@[j] == x);
                }
            }
            k += 1;
        }
        proof {
            assert forall|t: int, offset: int|
                0 <= t < s + 1 && fits_at::<T>(
                    mem.segs@[t].data@,
                    offset,
                ) implies #[trigger] is_dealt_with::<T, F>(mem, filter, opts@, t, offset) by {
                if t < s {
                    assert(is_dealt_with::<T, F>(mem, filter, start, t, offset));
                    if start.contains((mem.segs@[t].base + offset) as u64) {
                        let j = choose|j: int|
                            0 <= j < start.len() && start[j] == (mem.segs@[t].base + offset) as u64;
                        assert(opts@.contains(start[j]));
                    }
                } else {
                    if exists|j: int| 0 <= j < found@.len() && (#[trigger] found@[j]).0 == offset {
                        let j = choose|j: int|
                            0 <= j < found@.len() && (#[trigger] found@[j]).0 == offset;
                        assert(seg.base + found@[j].0 > u64::MAX || opts@.contains(
                            (seg.base + found@[j].0) as u64,
                        ));
                    }
                }
            }
        }
        s += 1;
    }
    let size = T::size_of();
    let dump_after = match size.checked_add(dump_after) {
        Some(n) => n,
        None => usize::MAX,
    };
    FindInSegsResult { dump_before, dump_after, opts }
}

/// The item in slot `i` of the inventory array at `inv_array_ptr`: the address of the item,
/// the item, and its definition, where the memory holds all three.
pub open spec fn spec_try_get_item(mem: &Memory, inv_array_ptr: u64, i: usize) -> Option<
    (u64, Item, ItemDef),
> {
    if inv_array_ptr + i * 8 > u64::MAX {
        None
    } else {
        match mem.spec_get::<u64>((inv_array_ptr + i * 8) as u64) {
            None => None,
            Some(item_ptr) => match mem.spec_get::<Item>(item_ptr) {
                None => None,
                Some(item) => match mem.spec_get::<ItemDef>(item.def) {
                    None => None,
                    Some(def) => Some((item_ptr, item, def)),
                },
            },
        }
    }
}

/// The item in slot `i` of the inventory array at `inv_array_ptr`.
pub fn try_get_item(mem: &Memory, inv_array_ptr: u64, i: usize) -> (r: Option<
    (u64, Item, ItemDef),
>)
    requires
        mem.wf(),
    ensures
        r == spec_try_get_item(mem, inv_array_ptr, i),
{
    if i as u128 * 8 + inv_array_ptr as u128 > u64::MAX as u128 {
        return None;
    }
    let slot_ptr: u64 = inv_array_ptr + (i as u64) * 8;
    let item_ptr = match mem.get::<u64>(slot_ptr) {
        Some(p) => p,
        None => {
            return None;
        },
    };
    let item = match mem.get::<Item>(item_ptr) {
        Some(item) => item,
        None => {
            return None;
        },
    };
    match item.get_def(mem) {
        Some(def) => Some((item_ptr, item, def)),
        None => None,
    }
}

/// The entries of the map, in ascending order of key.
pub open spec fn entries(m: &BTreeMap<u32, u32>) -> Seq<(u32, u32)> {
    into_iter(m.iter())
}

/// By how much the count of the first `n` keys of `old` has changed in `new`, for the keys
/// whose count has changed.  A key that `new` lacks counts zero there.
pub open spec fn changed(old: Seq<(u32, u32)>, new: Map<u32, u32>, n: int) -> Seq<(u32, i64)>
    decreases n,
{
    if n <= 0 {
        Seq::empty()
    } else {
        let before = changed(old, new, n - 1);
        let (key, old_count) = old[n - 1];
        let new_count = if new.contains_key(key) { new[key] } else { 0u32 };
        if new_count != old_count {
            before.push((key, (new_count - old_count) as i64))
        } else {
            before
        }
    }
}

/// The first `n` entries of `new` whose key `old` lacks.
pub open spec fn added(old: Map<u32, u32>, new: Seq<(u32, u32)>, n: int) -> Seq<(u32, i64)>
    decreases n,
{
    if n <= 0 {
        Seq::empty()
    } else {
        let before = added(old, new, n - 1);
        let (key, new_count) = new[n - 1];
        if !old.contains_key(key) {
            before.push((key, new_count as i64))
        } else {
            before
        }
    }
}

/// How `new` differs from `old`, where both hold a count for each of their keys: for each key
/// of `old` whose count has changed, by how much; then each key that only `new` has, with its
/// count.  Both parts are in ascending order of key.
pub fn map_delta(old: &BTreeMap<u32, u32>, new: &BTreeMap<u32, u32>) -> (out: Vec<(u32, i64)>)
    ensures
        out@ == changed(entries(old), new@, entries(old).len() as int) + added(
            old@,
            entries(new),
            entries(new).len() as int,
        ),
{
    let mut out: Vec<(u32, i64)> = Vec::new();
    for kv in it: old.iter()
        invariant
            it.seq().unref() == entries(old),
            out@ == changed(entries(old), new@, it.index()),
    {
        let key = *kv.0;
        let old_count = *kv.1;
        let new_count = match new.get(&key) {
            Some(c) => *c,
            None => 0,
        };
        if new_count != old_count {
            out.push((key, new_count as i64 - old_count as i64));
        }
    }
    let ghost first = out@;
    for kv in it: new.iter()
        invariant
            it.seq().unref() == entries(new),
            first == changed(entries(old), new@, entries(old).len() as int),
            out@ == first + added(old@, entries(new), it.index()),
    {
        let key = *kv.0;
        let new_count = *kv.1;
        if !old.contains_key(&key) {
            out.push((key, new_count as i64));
            assert(out@ =~= first + added(old@, entries(new), it.index()).push(
                (key, new_count as i64),
            ));
        }
    }
    out
}

} // verus!
