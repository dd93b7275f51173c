//! Dumps of memory as text: sixteen bytes to a line, in hexadecimal and as characters.

use crate::memory::{lemma_rank, lemma_slice_len, Memory};
use vstd::prelude::*;

verus! {

/// Number of bytes on a line of a dump.
pub const LINE_BYTES: u64 = 16;

/// Least number of digits of the address that begins a line.
pub const ADDR_DIGITS: usize = 8;

/// The character of the hexadecimal digit `n`, in lower case.
pub open spec fn spec_hex_digit(n: int) -> u8 {
    if n < 10 {
        (0x30 + n) as u8
    } else {
        (0x57 + n) as u8
    }
}

/// The character of the hexadecimal digit `n`, in lower case.
pub fn hex_digit(n: u8) -> (c: u8)
    requires
        n < 16,
    ensures
        c == spec_hex_digit(n as int),
{
    if n < 10 {
        0x30 + n
    } else {
        0x57 + n
    }
}

/// The character that stands for the byte `b` in the text column: the byte itself where it
/// is a space or a visible character, a dot for any other.
pub open spec fn spec_shown(b: u8) -> u8 {
    if 0x20 <= b <= 0x7e {
        b
    } else {
        0x2e
    }
}

/// The character that stands for the byte `b` in the text column.
#[verifier::when_used_as_spec(spec_shown)]
pub fn shown(b: u8) -> (c: u8)
    ensures
        c == spec_shown(b),
{
    if 0x20 <= b && b <= 0x7e {
        b
    } else {
        0x2e
    }
}

/// The hexadecimal numeral of `n`, filled with zeros from the left to `width` digits.
pub open spec fn hex_numeral(n: nat, width: nat) -> Seq<u8>
    decreases n, width,
{
    if n < 16 && width <= 1 {
        seq![spec_hex_digit(n as int)]
    } else {
        hex_numeral(n / 16, if width >= 1 { (width - 1) as nat } else { 0 }).push(
            spec_hex_digit((n % 16) as int),
        )
    }
}

/// Appends the hexadecimal numeral of `n`, of at least `width` digits, to `out`.
fn push_hex_numeral(out: &mut Vec<u8>, n: u64, width: usize)
    ensures
        final(out)@ == old(out)@ + hex_numeral(n as nat, width as nat),
    decreases n, width,
{
    if n < 16 && width <= 1 {
        out.push(hex_digit(n as u8));
        assert(out@ =~= old(out)@ + hex_numeral(n as nat, width as nat));
    } else {
        let rest: usize = if width >= 1 { width - 1 } else { 0 };
        push_hex_numeral(out, n / 16, rest);
        out.push(hex_digit((n % 16) as u8));
        assert(out@ =~= old(out)@ + hex_numeral(n as nat, width as nat));
    }
}

/// Where a dump begins: `before` bytes before `offset`, or at the first byte.
pub open spec fn window_start(offset: usize, before: usize) -> int {
    if before >= offset {
        0
    } else {
        offset - before
    }
}

/// Where a dump ends: `after` bytes after `offset`, or with the last of the `len` bytes.
pub open spec fn window_end(len: int, offset: usize, after: usize) -> int {
    if offset + after <= len {
        offset + after
    } else {
        len
    }
}

/// The byte at the address `a`, where `a` lies in the part from `start` to `end` of the bytes
/// that begin at the address `base`.
pub open spec fn byte_at(bytes: Seq<u8>, base: int, start: int, end: int, a: int) -> Option<u8> {
    if base + start <= a < base + end {
        Some(bytes[a - base])
    } else {
        None
    }
}

/// The two characters of the address `a` in the hexadecimal columns: the digits of its byte,
/// or blanks where the dump does not include the address.
pub open spec fn hex_cell(bytes: Seq<u8>, base: int, start: int, end: int, a: int) -> Seq<u8> {
    match byte_at(bytes, base, start, end, a) {
        Some(b) => seq![spec_hex_digit(b as int / 16), spec_hex_digit(b as int % 16)],
        None => seq![0x20u8, 0x20u8],
    }
}

/// The character of the address `a` in the text column.
pub open spec fn text_cell(bytes: Seq<u8>, base: int, start: int, end: int, a: int) -> u8 {
    match byte_at(bytes, base, start, end, a) {
        Some(b) => spec_shown(b),
        None => 0x20u8,
    }
}

/// The hexadecimal columns of the first `n` addresses of the line that begins at the address
/// `line`: a blank before every pair of bytes.
pub open spec fn hex_cells(
    bytes: Seq<u8>,
    base: int,
    start: int,
    end: int,
    line: int,
    n: int,
) -> Seq<u8>
    decreases n,
{
    if n <= 0 {
        Seq::empty()
    } else {
        let front = hex_cells(bytes, base, start, end, line, n - 1);
        let gap = if (n - 1) % 2 == 0 { seq![0x20u8] } else { Seq::empty() };
        front + gap + hex_cell(bytes, base, start, end, line + n - 1)
    }
}

/// The text column of the first `n` addresses of the line that begins at the address `line`.
pub open spec fn text_cells(
    bytes: Seq<u8>,
    base: int,
    start: int,
    end: int,
    line: int,
    n: int,
) -> Seq<u8>
    decreases n,
{
    if n <= 0 {
        Seq::empty()
    } else {
        text_cells(bytes, base, start, end, line, n - 1).push(
            text_cell(bytes, base, start, end, line + n - 1),
        )
    }
}

/// One line of a dump: the address `line` and a colon, the bytes of the sixteen addresses
/// from `line` on in hexadecimal, two blanks, the same bytes as text, and a line feed.
pub open spec fn dump_line(bytes: Seq<u8>, base: int, start: int, end: int, line: int) -> Seq<u8> {
    hex_numeral(line as nat, ADDR_DIGITS as nat) + seq![0x3au8] + hex_cells(
        bytes,
        base,
        start,
        end,
        line,
        LINE_BYTES as int,
    ) + seq![0x20u8, 0x20u8] + text_cells(bytes, base, start, end, line, LINE_BYTES as int)
        + seq![0x0au8]
}

/// The `n` lines of a dump from the line with the number `first` on.
pub open spec fn dump_lines(
    bytes: Seq<u8>,
    base: int,
    start: int,
    end: int,
    first: int,
    n: int,
) -> Seq<u8>
    decreases n,
{
    if n <= 0 {
        Seq::empty()
    } else {
        dump_lines(bytes, base, start, end, first, n - 1) + dump_line(
            bytes,
            base,
            start,
            end,
            (first + n - 1) * LINE_BYTES,
        )
    }
}

/// The dump of the bytes around `offset`, from `before` bytes before it to `after` bytes
/// after it, where the bytes begin at the address `base_addr`.
///
/// The lines begin at multiples of sixteen, from the line of the first byte to the line of
/// the last.  Addresses of these lines that are not part of the dump show as blanks.
pub open spec fn spec_dump_around(
    bytes: Seq<u8>,
    base_addr: u64,
    offset: usize,
    before: usize,
    after: usize,
) -> Seq<u8> {
    let start = window_start(offset, before);
    let end = window_end(bytes.len() as int, offset, after);
    let first = (base_addr + start) / (LINE_BYTES as int);
    let last = (base_addr + end + LINE_BYTES - 1) / (LINE_BYTES as int);
    dump_lines(bytes, base_addr as int, start, end, first, last - first)
}

/// Appends one line of a dump to `out`.
fn push_line(out: &mut Vec<u8>, bytes: &[u8], base_addr: u64, start: usize, end: usize, line: u64)
    requires
        start <= end <= bytes@.len(),
        base_addr + bytes@.len() + LINE_BYTES <= u64::MAX,
        line + LINE_BYTES <= u64::MAX,
    ensures
        final(out)@ == old(out)@ + dump_line(
            bytes@,
            base_addr as int,
            start as int,
            end as int,
            line as int,
        ),
{
    let ghost base = base_addr as int;
    push_hex_numeral(out, line, ADDR_DIGITS);
    out.push(0x3a);
    let ghost head = out@;
    let mut text: Vec<u8> = Vec::new();
    let mut j: u64 = 0;
    while j < LINE_BYTES
        invariant
            j <= LINE_BYTES,
            start <= end <= bytes@.len(),
            base == base_addr,
            base_addr + bytes@.len() + LINE_BYTES <= u64::MAX,
            line + LINE_BYTES <= u64::MAX,
            out@ == head + hex_cells(bytes@, base, start as int, end as int, line as int, j as int),
            text@ == text_cells(bytes@, base, start as int, end as int, line as int, j as int),
        decreases LINE_BYTES - j,
    {
        let ghost so_far = out@;
        if j % 2 == 0 {
            out.push(0x20);
        }
        let a: u64 = line + j;
        if base_addr + start as u64 <= a && a < base_addr + end as u64 {
            let b: u8 = bytes[(a - base_addr) as usize];
            out.push(hex_digit(b / 16));
            out.push(hex_digit(b % 16));
            text.push(shown(b));
        } else {
            out.push(0x20);
            out.push(0x20);
            text.push(0x20);
        }
        j += 1;
        assert(out@ =~= head + hex_cells(
            bytes@,
            base,
            start as int,
            end as int,
            line as int,
            j as int,
        ));
    }
    out.push(0x20);
    out.push(0x20);
    let ghost wide = out@;
    let mut k: usize = 0;
    while k < text.len()
        invariant
            k <= text@.len(),
            out@ == wide + text@.take(k as int),
        decreases text@.len() - k,
    {
        out.push(text[k]);
        k += 1;
        assert(out@ =~= wide + text@.take(k as int));
    }
    out.push(0x0a);
    assert(text@.take(text@.len() as int) =~= text@);
    assert(out@ =~= old(out)@ + dump_line(
        bytes@,
        base,
        start as int,
        end as int,
        line as int,
    ));
}

/// The dump of the bytes around `offset`, from `before` bytes before it to `after` bytes
/// after it, as text in ASCII.  The bytes begin at the address `base_addr`.
pub fn dump_around(bytes: &[u8], base_addr: u64, offset: usize, before: usize, after: usize) -> (text:
    Vec<u8>)
    requires
        window_start(offset, before) <= bytes@.len(),
        base_addr + bytes@.len() + LINE_BYTES <= u64::MAX,
    ensures
        text@ == spec_dump_around(bytes@, base_addr, offset, before, after),
{
    proof {
        lemma_slice_len(bytes);
    }
    let start: usize = offset.saturating_sub(before);
    let end: usize = match offset.checked_add(after) {
        Some(e) => if e <= bytes.len() { e } else { bytes.len() },
        None => bytes.len(),
    };
    let first: u64 = (base_addr + start as u64) / LINE_BYTES;
    let last: u64 = (base_addr + end as u64 + LINE_BYTES - 1) / LINE_BYTES;
    let mut out: Vec<u8> = Vec::new();
    let mut i: u64 = first;
    while i < last
        invariant
            first <= i <= last,
            start <= end <= bytes@.len(),
            base_addr + bytes@.len() + LINE_BYTES <= u64::MAX,
            last * LINE_BYTES <= base_addr + end + LINE_BYTES - 1,
            out@ == dump_lines(
                bytes@,
                base_addr as int,
                start as int,
                end as int,
                first as int,
                i - first,
            ),
        decreases last - i,
    {
        push_line(&mut out, bytes, base_addr, start, end, i * LINE_BYTES);
        i += 1;
    }
    out
}

impl<'a> Memory<'a> {
    /// The dump of the bytes around the address `addr`, taken from the segment that governs
    /// `addr`.  There is none where no segment governs `addr`, where the dump would begin
    /// behind the end of the segment, or where the segment ends at the end of the address
    /// space.
    pub open spec fn spec_dump_around_addr(&self, addr: u64, before: usize, after: usize) -> Option<
        Seq<u8>,
    > {
        match self.segment_of(addr) {
            None => None,
            Some(seg) => {
                let offset = addr - seg.base;
                if offset <= usize::MAX && window_start(offset as usize, before) <= seg.data@.len()
                    && seg.base + seg.data@.len() + LINE_BYTES <= u64::MAX {
                    Some(spec_dump_around(seg.data@, seg.base, offset as usize, before, after))
                } else {
                    None
                }
            },
        }
    }

    /// The dump of the bytes around the address `addr`, where there is one.
    pub fn get_dump_around_addr(&self, addr: u64, before: usize, after: usize) -> (r: Option<Vec<u8>>)
        requires
            self.wf(),
        ensures
            match r {
                Some(text) => self.spec_dump_around_addr(addr, before, after) == Some(text@),
                None => self.spec_dump_around_addr(addr, before, after) is None,
            },
    {
        let pos = self.find(addr);
        if pos == 0 {
            return None;
        }
        proof {
            lemma_rank(self.bases(), addr, self.segs@.len() as int);
            assert(self.bases()[pos - 1] == self.segs@[pos - 1].base);
        }
        let seg = self.segs[pos - 1];
        let offset: u64 = addr - seg.base;
        let len = seg.data.len();
        proof {
            lemma_slice_len(seg.data);
        }
        if offset > usize::MAX as u64 {
            return None;
        }
        if (offset as usize).saturating_sub(before) > len {
            return None;
        }
        if len as u64 > u64::MAX - LINE_BYTES || seg.base > u64::MAX - LINE_BYTES - len as u64 {
            return None;
        }
        Some(dump_around(seg.data, seg.base, offset as usize, before, after))
    }

    /// The dump of the bytes around the address `addr`, which a segment governs.
    pub fn dump_around_addr(&self, addr: u64, before: usize, after: usize) -> (r: Vec<u8>)
        requires
            self.wf(),
            self.spec_dump_around_addr(addr, before, after) is Some,
        ensures
            Some(r@) == self.spec_dump_around_addr(addr, before, after),
    {
        self.get_dump_around_addr(addr, before, after).unwrap()
    }
}

} // verus!
