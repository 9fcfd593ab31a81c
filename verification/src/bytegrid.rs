//! The 256x256 byte grid, its binary diff and patch codec, and a 256 bit set.

use vstd::prelude::*;
use vstd::std_specs::cmp::PartialEqSpecImpl;

verus! {

/// Number of cells along each side of a grid.
pub const GRID_SIDE: usize = 256;

/// Number of cells of a grid.
pub const GRID_CELLS: usize = 65536;

/// A square grid of `GRID_SIDE` columns and rows. A cell is addressed by its
/// column `x` and row `y`, or by the packed address `x * 256 + y`.
pub struct Grid<T> {
    data: Vec<T>,
}

pub type ByteGrid = Grid<u8>;

/// Packed address of the cell in column `x` and row `y`.
pub open spec fn cell_addr(x: u8, y: u8) -> int {
    x as int * 256 + y as int
}

impl<T> Grid<T> {
    #[verifier::type_invariant]
    spec fn full(&self) -> bool {
        self.data@.len() == GRID_CELLS
    }
}

impl View for Grid<u8> {
    type V = Seq<u8>;

    /// The cells by packed address. Always `GRID_CELLS` long.
    closed spec fn view(&self) -> Seq<u8> {
        Seq::new(
            GRID_CELLS as nat,
            |a: int| if a < self.data@.len() { self.data@[a] } else { 0u8 },
        )
    }
}

impl Grid<u8> {
    /// Every grid has exactly `GRID_CELLS` cells.
    pub broadcast proof fn lemma_view_len(self)
        ensures
            #[trigger] self@.len() == GRID_CELLS,
    {
    }

    /// A grid of zero bytes.
    pub fn new() -> (r: Grid<u8>)
        ensures
            r@ == Seq::new(GRID_CELLS as nat, |a: int| 0u8),
    {
        let r = Grid { data: vec![0u8; GRID_CELLS] };
        assert(r@ =~= Seq::new(GRID_CELLS as nat, |a: int| 0u8));
        r
    }

    /// The byte at a packed address.
    pub fn get(&self, addr: u16) -> (r: u8)
        ensures
            r == self@[addr as int],
    {
        proof {
            use_type_invariant(self);
        }
        self.data[addr as usize]
    }

    /// Stores `value` at a packed address.
    pub fn set(&mut self, addr: u16, value: u8)
        ensures
            final(self)@ == old(self)@.update(addr as int, value),
    {
        proof {
            use_type_invariant(&*self);
        }
        self.data[addr as usize] = value;
        assert(self@ =~= old(self)@.update(addr as int, value));
    }

    /// The byte in column `x` and row `y`.
    pub fn get_xy(&self, x: u8, y: u8) -> (r: u8)
        ensures
            r == self@[cell_addr(x, y)],
    {
        self.get(pack_addr(x, y))
    }

    /// Stores `value` in column `x` and row `y`.
    pub fn set_xy(&mut self, x: u8, y: u8, value: u8)
        ensures
            final(self)@ == old(self)@.update(cell_addr(x, y), value),
    {
        self.set(pack_addr(x, y), value)
    }
}

/// The packed address of column `x` and row `y`.
pub fn pack_addr(x: u8, y: u8) -> (r: u16)
    ensures
        r == cell_addr(x, y),
{
    let hi: u16 = x as u16 * 256;
    hi + y as u16
}

impl Clone for Grid<u8> {
    fn clone(&self) -> (r: Self)
        ensures
            r@ == self@,
    {
        proof {
            use_type_invariant(self);
        }
        let r = Grid { data: self.data.clone() };
        assert(r@ =~= self@);
        r
    }
}

impl PartialEqSpecImpl for Grid<u8> {
    open spec fn obeys_eq_spec() -> bool {
        true
    }

    open spec fn eq_spec(&self, other: &Grid<u8>) -> bool {
        self@ == other@
    }
}

impl PartialEq for Grid<u8> {
    /// Two grids are equal when all their cells are.
    fn eq(&self, other: &Grid<u8>) -> (r: bool) {
        proof {
            use_type_invariant(self);
            use_type_invariant(other);
        }
        let mut i: usize = 0;
        while i < GRID_CELLS
            invariant
                i <= GRID_CELLS,
                self.data@.len() == GRID_CELLS,
                other.data@.len() == GRID_CELLS,
                forall|k: int| 0 <= k < i ==> self@[k] == other@[k],
            decreases GRID_CELLS - i,
        {
            if self.data[i] != other.data[i] {
                assert(self@[i as int] != other@[i as int]);
                return false;
            }
            i += 1;
        }
        assert(self@ =~= other@);
        true
    }
}

impl Eq for Grid<u8> {

}


/// A hunk as a mathematical value: its start address and the bytes that it
/// writes from there on.
pub type Hunk = (u16, Seq<u8>);

/// The address just past the last byte of a hunk.
pub open spec fn hunk_end(h: Hunk) -> int {
    h.0 as int + h.1.len() as int
}

/// A grid after one hunk was written into it. Bytes that would land past the
/// last cell are dropped.
pub open spec fn patch_hunk(grid: Seq<u8>, h: Hunk) -> Seq<u8> {
    Seq::new(
        grid.len(),
        |a: int| if h.0 as int <= a < hunk_end(h) { h.1[a - h.0 as int] } else { grid[a] },
    )
}

/// A grid after the hunks were written into it, first to last.
pub open spec fn patch_spec(grid: Seq<u8>, hunks: Seq<Hunk>) -> Seq<u8>
    decreases hunks.len(),
{
    if hunks.len() == 0 {
        grid
    } else {
        patch_hunk(patch_spec(grid, hunks.drop_last()), hunks.last())
    }
}

/// The hunks found by scanning the addresses below `n` in rising order. A
/// differing byte that lies at most 3 addresses past the end of the last hunk
/// extends that hunk up to itself, unchanged bytes in between included; any
/// other differing byte opens a hunk of its own.
pub open spec fn diff_upto(before: Seq<u8>, after: Seq<u8>, n: int) -> Seq<Hunk>
    decreases n,
{
    if n <= 0 {
        Seq::empty()
    } else {
        let prev = diff_upto(before, after, n - 1);
        let i = n - 1;
        if before[i] == after[i] {
            prev
        } else if prev.len() > 0 && i - hunk_end(prev.last()) <= 3 {
            let last = prev.last();
            prev.drop_last().push((last.0, last.1 + after.subrange(hunk_end(last), i + 1)))
        } else {
            prev.push((i as u16, seq![after[i]]))
        }
    }
}

/// The diff of two grids.
pub open spec fn diff_spec(before: Seq<u8>, after: Seq<u8>) -> Seq<Hunk> {
    diff_upto(before, after, GRID_CELLS as int)
}

/// The low byte of an address.
pub open spec fn addr_low(addr: u16) -> u8 {
    (addr % 256) as u8
}

/// The high byte of an address.
pub open spec fn addr_high(addr: u16) -> u8 {
    (addr / 256) as u8
}

/// The address `n` bytes past `addr`, wrapping round past the last cell.
pub open spec fn addr_after(addr: u16, n: int) -> u16 {
    ((addr + n) % 65536) as u16
}

/// The address that two bytes of a record stand for.
pub open spec fn addr_of(low: u8, high: u8) -> u16 {
    (low as int + high as int * 256) as u16
}

/// The records that one hunk is written as: its bytes in fragments of at most
/// 256, each behind the low and high byte of its address and its length less
/// one.
pub open spec fn hunk_records(start: u16, bytes: Seq<u8>) -> Seq<u8>
    decreases bytes.len(),
{
    if bytes.len() == 0 {
        Seq::empty()
    } else {
        let n: int = if bytes.len() < 256 { bytes.len() as int } else { 256 };
        seq![addr_low(start), addr_high(start), (n - 1) as u8] + bytes.subrange(0, n)
            + hunk_records(addr_after(start, n), bytes.subrange(n, bytes.len() as int))
    }
}

/// The binary form of a sequence of hunks.
pub open spec fn serialize_spec(hunks: Seq<Hunk>) -> Seq<u8>
    decreases hunks.len(),
{
    if hunks.len() == 0 {
        Seq::empty()
    } else {
        serialize_spec(hunks.drop_last()) + hunk_records(hunks.last().0, hunks.last().1)
    }
}

/// The hunks that a byte string stands for, one for each record; `None`
/// where the bytes do not end with a complete record.
pub open spec fn parse_spec(data: Seq<u8>) -> Option<Seq<Hunk>>
    decreases data.len(),
{
    if data.len() == 0 {
        Some(Seq::empty())
    } else if data.len() < 4 {
        None
    } else {
        let n = data[2] as int + 1;
        if data.len() < 3 + n {
            None
        } else {
            match parse_spec(data.subrange(3 + n, data.len() as int)) {
                Some(rest) => Some(
                    seq![(addr_of(data[0], data[1]), data.subrange(3, 3 + n))] + rest,
                ),
                None => None,
            }
        }
    }
}

struct DiffHunk {
    start: u16,
    data: Vec<u8>,
}

impl View for DiffHunk {
    type V = Hunk;

    closed spec fn view(&self) -> Hunk {
        (self.start, self.data@)
    }
}

spec fn hunks_view(hunks: Seq<DiffHunk>) -> Seq<Hunk> {
    Seq::new(hunks.len(), |k: int| hunks[k]@)
}

/// The changes that turn one grid into another: an ordered list of hunks.
pub struct ByteGridDiff {
    hunks: Vec<DiffHunk>,
}

impl View for ByteGridDiff {
    type V = Seq<Hunk>;

    closed spec fn view(&self) -> Seq<Hunk> {
        hunks_view(self.hunks@)
    }
}

impl ByteGridDiff {
    /// A diff without hunks.
    pub fn new() -> (r: ByteGridDiff)
        ensures
            r@ == Seq::<Hunk>::empty(),
    {
        let r = ByteGridDiff { hunks: Vec::new() };
        assert(r@ =~= Seq::<Hunk>::empty());
        r
    }

    /// Whether the diff has no hunk.
    pub fn is_empty(&self) -> (r: bool)
        ensures
            r == (self@.len() == 0),
    {
        self.hunks.len() == 0
    }

    /// The number of hunks.
    pub fn hunk_count(&self) -> (r: usize)
        ensures
            r == self@.len(),
    {
        self.hunks.len()
    }
}


/// What holds of every hunk of a diff taken over the addresses below `n`: it
/// is not empty, ends at or before `n`, carries the bytes of `after` at its
/// addresses, starts and ends on a byte that differs, and is followed by at
/// least four unchanged bytes before the next hunk starts.
pub proof fn lemma_diff_upto_shape(before: Seq<u8>, after: Seq<u8>, n: int)
    requires
        0 <= n <= GRID_CELLS,
        before.len() == GRID_CELLS,
        after.len() == GRID_CELLS,
    ensures
        forall|k: int|
            #![trigger diff_upto(before, after, n)[k]]
            0 <= k < diff_upto(before, after, n).len() ==> {
                let h = diff_upto(before, after, n)[k];
                &&& h.1.len() >= 1
                &&& hunk_end(h) <= n
                &&& h.1 == after.subrange(h.0 as int, hunk_end(h))
                &&& before[h.0 as int] != after[h.0 as int]
                &&& before[hunk_end(h) - 1] != after[hunk_end(h) - 1]
                &&& k + 1 < diff_upto(before, after, n).len() ==> hunk_end(h) + 4 <= diff_upto(
                    before,
                    after,
                    n,
                )[k + 1].0
            },
    decreases n,
{
    if n > 0 {
        lemma_diff_upto_shape(before, after, n - 1);
        let prev = diff_upto(before, after, n - 1);
        let cur = diff_upto(before, after, n);
        let i = n - 1;
        if before[i] == after[i] {
        } else if prev.len() > 0 && i - hunk_end(prev.last()) <= 3 {
            let last = prev.last();
            let grown = (last.0, last.1 + after.subrange(hunk_end(last), i + 1));
            assert(prev[prev.len() - 1] == last);
            assert(grown.1 =~= after.subrange(grown.0 as int, hunk_end(grown)));
            assert forall|k: int| 0 <= k < cur.len() implies {
                let h = #[trigger] cur[k];
                &&& h.1.len() >= 1
                &&& hunk_end(h) <= n
                &&& h.1 == after.subrange(h.0 as int, hunk_end(h))
                &&& before[h.0 as int] != after[h.0 as int]
                &&& before[hunk_end(h) - 1] != after[hunk_end(h) - 1]
                &&& k + 1 < cur.len() ==> hunk_end(h) + 4 <= cur[k + 1].0
            } by {
                if k < cur.len() - 1 {
                    assert(cur[k] == prev[k]);
                    if k + 1 < cur.len() - 1 {
                        assert(cur[k + 1] == prev[k + 1]);
                    } else {
                        assert(cur[k + 1].0 == prev[k + 1].0);
                    }
                }
            }
        } else {
            assert forall|k: int| 0 <= k < cur.len() implies {
                let h = #[trigger] cur[k];
                &&& h.1.len() >= 1
                &&& hunk_end(h) <= n
                &&& h.1 == after.subrange(h.0 as int, hunk_end(h))
                &&& before[h.0 as int] != after[h.0 as int]
                &&& before[hunk_end(h) - 1] != after[hunk_end(h) - 1]
                &&& k + 1 < cur.len() ==> hunk_end(h) + 4 <= cur[k + 1].0
            } by {
                if k < cur.len() - 1 {
                    assert(cur[k] == prev[k]);
                    if k + 1 < cur.len() - 1 {
                        assert(cur[k + 1] == prev[k + 1]);
                    } else {
                        assert(prev[prev.len() - 1] == prev.last());
                    }
                } else {
                    assert(cur[k].1 =~= after.subrange(i, i + 1));
                }
            }
        }
    }
}

impl Grid<u8> {
    /// The hunks that turn this grid into `after`, found in one pass over the
    /// addresses in rising order.
    pub fn diff(&self, after: &Grid<u8>) -> (r: ByteGridDiff)
        ensures
            r@ == diff_spec(self@, after@),
    {
        let mut hunks: Vec<DiffHunk> = Vec::new();
        let mut i: usize = 0;
        assert(hunks_view(hunks@) =~= diff_upto(self@, after@, 0));
        while i < GRID_CELLS
            invariant
                i <= GRID_CELLS,
                hunks_view(hunks@) == diff_upto(self@, after@, i as int),
            decreases GRID_CELLS - i,
        {
            let ghost prev = hunks_view(hunks@);
            proof {
                self.lemma_view_len();
                after.lemma_view_len();
                lemma_diff_upto_shape(self@, after@, i as int);
            }
            if self.get(i as u16) != after.get(i as u16) {
                let mut add_new_hunk = true;
                let count = hunks.len();
                if count > 0 {
                    assert(prev[count - 1] == hunks@[count - 1]@);
                    let end: usize = hunks[count - 1].start as usize + hunks[count - 1].data.len();
                    if i - end <= 3 {
                        let mut last = hunks.pop().unwrap();
                        let mut j: usize = end;
                        assert(last.data@ =~= prev.last().1 + after@.subrange(
                            end as int,
                            j as int,
                        ));
                        while j <= i
                            invariant
                                end <= j <= i + 1,
                                i < GRID_CELLS,
                                after@.len() == GRID_CELLS,
                                last.start == prev.last().0,
                                last.data@ == prev.last().1 + after@.subrange(
                                    end as int,
                                    j as int,
                                ),
                            decreases i + 1 - j,
                        {
                            last.data.push(after.get(j as u16));
                            assert(last.data@ =~= prev.last().1 + after@.subrange(
                                end as int,
                                j + 1,
                            ));
                            j += 1;
                        }
                        hunks.push(last);
                        add_new_hunk = false;
                        assert(hunks_view(hunks@) =~= diff_upto(self@, after@, i + 1));
                    }
                }
                if add_new_hunk {
                    let mut data: Vec<u8> = Vec::new();
                    data.push(after.get(i as u16));
                    hunks.push(DiffHunk { start: i as u16, data });
                    assert(hunks_view(hunks@) =~= diff_upto(self@, after@, i + 1));
                }
            }
            i += 1;
        }
        ByteGridDiff { hunks }
    }

    /// Writes the hunks of `diff` into the grid, first to last. What a hunk
    /// holds for addresses past the last cell is left out.
    pub fn patch(&mut self, diff: &ByteGridDiff)
        ensures
            final(self)@ == patch_spec(old(self)@, diff@),
    {
        let ghost start_grid = self@;
        let mut k: usize = 0;
        assert(diff@.take(0) =~= Seq::<Hunk>::empty());
        while k < diff.hunks.len()
            invariant
                k <= diff.hunks.len(),
                self@ == patch_spec(start_grid, diff@.take(k as int)),
            decreases diff.hunks.len() - k,
        {
            let hunk = &diff.hunks[k];
            let ghost base = self@;
            let room: usize = GRID_CELLS - hunk.start as usize;
            let l: usize = if hunk.data.len() < room {
                hunk.data.len()
            } else {
                room
            };
            let mut idx: usize = 0;
            proof {
                self.lemma_view_len();
            }
            assert(self@ =~= patch_hunk(base, (hunk.start, hunk.data@.take(0))));
            while idx < l
                invariant
                    idx <= l,
                    l <= hunk.data.len(),
                    hunk.start + l <= GRID_CELLS,
                    base.len() == GRID_CELLS,
                    self@ == patch_hunk(base, (hunk.start, hunk.data@.take(idx as int))),
                decreases l - idx,
            {
                self.set((hunk.start as usize + idx) as u16, hunk.data[idx]);
                assert(self@ =~= patch_hunk(base, (hunk.start, hunk.data@.take(idx + 1))));
                idx += 1;
            }
            assert(self@ =~= patch_hunk(base, hunk@));
            proof {
                let upto = diff@.take(k + 1);
                assert(upto.drop_last() =~= diff@.take(k as int));
                assert(upto.last() == hunk@);
            }
            k += 1;
        }
        assert(diff@.take(k as int) =~= diff@);
    }
}


/// The records of a hunk that is not empty: its first record, then the
/// records of what is left.
proof fn lemma_hunk_records_unfold(addr: u16, bytes: Seq<u8>, n: int)
    requires
        bytes.len() > 0,
        n == if bytes.len() < 256 { bytes.len() as int } else { 256 },
    ensures
        hunk_records(addr, bytes) == seq![addr_low(addr), addr_high(addr), (n - 1) as u8]
            + bytes.subrange(0, n) + hunk_records(
            addr_after(addr, n),
            bytes.subrange(n, bytes.len() as int),
        ),
{
}

/// The address `n` bytes further on, wrapping round past the last cell.
fn next_addr(pos: u16, n: usize) -> (r: u16)
    requires
        n <= 256,
    ensures
        r == addr_after(pos, n as int),
{
    ((pos as u32 + n as u32) % 65536) as u16
}

/// Appends one record to `out`: the address `pos` and the `n` bytes of `data`
/// from `offset` on.
fn push_record(out: &mut Vec<u8>, pos: u16, data: &Vec<u8>, offset: usize, n: usize)
    requires
        1 <= n <= 256,
        offset + n <= data@.len(),
    ensures
        final(out)@ == old(out)@ + (seq![addr_low(pos), addr_high(pos), (n - 1) as u8]
            + data@.subrange(offset as int, offset + n)),
{
    let ghost start = out@;
    let ghost header = seq![addr_low(pos), addr_high(pos), (n - 1) as u8];
    out.push((pos % 256) as u8);
    out.push((pos / 256) as u8);
    out.push((n - 1) as u8);
    assert(out@ =~= start + (header + data@.subrange(offset as int, offset as int)));
    let mut j: usize = 0;
    while j < n
        invariant
            j <= n,
            offset + n <= data.len(),
            out@ == start + (header + data@.subrange(offset as int, offset + j)),
        decreases n - j,
    {
        out.push(data[offset + j]);
        assert(out@ =~= start + (header + data@.subrange(offset as int, offset + j + 1)));
        j += 1;
    }
}

/// The hunks `head` followed by the hunks parsed from what is left, if any.
pub open spec fn prepend_hunks(head: Seq<Hunk>, tail: Option<Seq<Hunk>>) -> Option<Seq<Hunk>> {
    match tail {
        Some(rest) => Some(head + rest),
        None => None,
    }
}

impl ByteGridDiff {
    /// The binary form: for each fragment of at most 256 bytes of a hunk, the
    /// low and the high byte of its address, its length less one, its bytes.
    pub fn serialize(&self) -> (r: Vec<u8>)
        ensures
            r@ == serialize_spec(self@),
    {
        let mut result: Vec<u8> = Vec::new();
        let mut k: usize = 0;
        assert(self@.take(0) =~= Seq::<Hunk>::empty());
        while k < self.hunks.len()
            invariant
                k <= self.hunks.len(),
                result@ == serialize_spec(self@.take(k as int)),
            decreases self.hunks.len() - k,
        {
            let hunk = &self.hunks[k];
            let len = hunk.data.len();
            let ghost base = result@;
            let mut pos: u16 = hunk.start;
            let mut offset: usize = 0;
            assert(hunk.data@.subrange(0, len as int) =~= hunk.data@);
            while offset < len
                invariant
                    offset <= len,
                    len == hunk.data@.len(),
                    result@ + hunk_records(pos, hunk.data@.subrange(offset as int, len as int))
                        == base + hunk_records(hunk.start, hunk.data@),
                decreases len - offset,
            {
                let rest = len - offset;
                let n: usize = if rest < 256 {
                    rest
                } else {
                    256
                };
                let ghost tail = hunk.data@.subrange(offset as int, len as int);
                let ghost before_record = result@;
                push_record(&mut result, pos, &hunk.data, offset, n);
                proof {
                    let next = hunk.data@.subrange(offset + n, len as int);
                    assert(tail.subrange(n as int, tail.len() as int) =~= next);
                    assert(tail.subrange(0, n as int) =~= hunk.data@.subrange(
                        offset as int,
                        offset + n,
                    ));
                    lemma_hunk_records_unfold(pos, tail, n as int);
                    let written = seq![addr_low(pos), addr_high(pos), (n - 1) as u8]
                        + tail.subrange(0, n as int);
                    let later = hunk_records(addr_after(pos, n as int), next);
                    assert(result@ == before_record + written);
                    assert((before_record + written) + later =~= before_record + (written
                        + later));
                }
                pos = next_addr(pos, n);
                offset += n;
            }
            assert(hunk.data@.subrange(len as int, len as int) =~= Seq::<u8>::empty());
            assert(result@ + Seq::<u8>::empty() =~= result@);
            proof {
                let upto = self@.take(k + 1);
                assert(upto.drop_last() =~= self@.take(k as int));
                assert(upto.last() == hunk@);
            }
            k += 1;
        }
        assert(self@.take(k as int) =~= self@);
        result
    }

    /// Reads the binary form back. Fails where the bytes do not end with a
    /// complete record.
    pub fn deserialize(data: &Vec<u8>) -> (r: Result<ByteGridDiff, ()>)
        ensures
            match r {
                Ok(d) => parse_spec(data@) == Some(d@),
                Err(_) => parse_spec(data@) is None,
            },
    {
        let mut hunks: Vec<DiffHunk> = Vec::new();
        let mut pos: usize = 0;
        let total = data.len();
        assert(data@.subrange(0, total as int) =~= data@);
        assert(hunks_view(hunks@) + parse_spec(data@)->0 =~= parse_spec(data@)->0);
        while total - pos >= 4
            invariant
                pos <= total,
                total == data@.len(),
                parse_spec(data@) == prepend_hunks(
                    hunks_view(hunks@),
                    parse_spec(data@.subrange(pos as int, total as int)),
                ),
            decreases total - pos,
        {
            let ghost rest = data@.subrange(pos as int, total as int);
            let ghost head = hunks_view(hunks@);
            let grid_pos: u16 = data[pos] as u16 + (data[pos + 1] as u16) * 256;
            let len: usize = data[pos + 2] as usize + 1;
            pos += 3;
            if total - pos < len {
                return Err(());
            }
            let mut bytes: Vec<u8> = Vec::new();
            let mut j: usize = 0;
            while j < len
                invariant
                    j <= len,
                    pos + len <= total,
                    total == data@.len(),
                    bytes@ == data@.subrange(pos as int, pos + j),
                decreases len - j,
            {
                bytes.push(data[pos + j]);
                assert(bytes@ =~= data@.subrange(pos as int, pos + j + 1));
                j += 1;
            }
            assert(bytes@ =~= rest.subrange(3, 3 + len));
            hunks.push(DiffHunk { start: grid_pos, data: bytes });
            pos += len;
            proof {
                let after_record = data@.subrange(pos as int, total as int);
                assert(rest.subrange(3 + len, rest.len() as int) =~= after_record);
                assert(hunks_view(hunks@) =~= head.push((grid_pos, bytes@)));
                if parse_spec(after_record) is Some {
                    let tail = parse_spec(after_record)->0;
                    assert(head + (seq![(grid_pos, bytes@)] + tail) =~= head.push(
                        (grid_pos, bytes@),
                    ) + tail);
                }
            }
        }
        let ghost rest = data@.subrange(pos as int, total as int);
        if total - pos > 0 {
            Err(())
        } else {
            let r = ByteGridDiff { hunks };
            assert(r@ + Seq::<Hunk>::empty() =~= r@);
            Ok(r)
        }
    }
}


/// The line feed that ends a row in raw text.
pub const LINE_FEED: u8 = 10;

/// The row of raw text that byte `i` stands in: the number of line feeds
/// before it.
pub open spec fn raw_row(data: Seq<u8>, i: int) -> int
    decreases i,
{
    if i <= 0 {
        0
    } else {
        raw_row(data, i - 1) + if data[i - 1] == LINE_FEED {
            1int
        } else {
            0int
        }
    }
}

/// The column of raw text that byte `i` stands in: the number of bytes
/// between it and the line feed before it.
pub open spec fn raw_col(data: Seq<u8>, i: int) -> int
    decreases i,
{
    if i <= 0 {
        0
    } else if data[i - 1] == LINE_FEED {
        0
    } else {
        raw_col(data, i - 1) + 1
    }
}

/// Byte `i` of the raw text is no line feed and stands in column `x` of row
/// `y`.
pub open spec fn raw_lands(data: Seq<u8>, i: int, x: u8, y: u8) -> bool {
    &&& 0 <= i < data.len()
    &&& data[i] != LINE_FEED
    &&& raw_col(data, i) == x
    &&& raw_row(data, i) == y
}

/// What the cell in column `x` and row `y` holds once the first `n` bytes of
/// the raw text are laid out: the byte that stands there, or zero.
pub open spec fn raw_cell(data: Seq<u8>, n: int, x: u8, y: u8) -> u8
    decreases n,
{
    if n <= 0 {
        0
    } else if raw_lands(data, n - 1, x, y) {
        data[n - 1]
    } else {
        raw_cell(data, n - 1, x, y)
    }
}

/// Of two bytes of raw text the later stands in a later row, or in the same
/// row and a later column.
pub proof fn lemma_raw_order(data: Seq<u8>, i: int, j: int)
    requires
        0 <= i < j,
    ensures
        raw_row(data, i) < raw_row(data, j) || (raw_row(data, i) == raw_row(data, j) && raw_col(
            data,
            i,
        ) < raw_col(data, j)),
    decreases j,
{
    if i < j - 1 {
        lemma_raw_order(data, i, j - 1);
    }
}

/// The byte that stands in a cell is what the cell holds.
pub proof fn lemma_raw_cell_holds(data: Seq<u8>, i: int, x: u8, y: u8, n: int)
    requires
        raw_lands(data, i, x, y),
        i < n <= data.len(),
    ensures
        raw_cell(data, n, x, y) == data[i],
    decreases n,
{
    if n - 1 != i {
        if raw_lands(data, n - 1, x, y) {
            lemma_raw_order(data, i, n - 1);
        } else {
            lemma_raw_cell_holds(data, i, x, y, n - 1);
        }
    }
}

/// A cell in which no byte stands holds zero.
pub proof fn lemma_raw_cell_blank(data: Seq<u8>, x: u8, y: u8, n: int)
    requires
        forall|i: int| 0 <= i < n ==> !raw_lands(data, i, x, y),
    ensures
        raw_cell(data, n, x, y) == 0,
    decreases n,
{
    if n > 0 {
        lemma_raw_cell_blank(data, x, y, n - 1);
    }
}

impl Grid<u8> {
    /// Lays raw text out on a grid of zero bytes: each line feed starts the
    /// next row, every other byte fills the next column of its row. Bytes that
    /// stand past the last column or row are left out.
    pub fn from_raw_str(data: &[u8]) -> (r: Grid<u8>)
        ensures
            forall|x: u8, y: u8| #[trigger]
                r@[cell_addr(x, y)] == raw_cell(data@, data@.len() as int, x, y),
    {
        let mut result = Grid::new();
        let mut px: usize = 0;
        let mut py: usize = 0;
        let mut i: usize = 0;
        while i < data.len()
            invariant
                i <= data.len(),
                px == raw_col(data@, i as int),
                py == raw_row(data@, i as int),
                px <= i,
                py <= i,
                forall|x: u8, y: u8| #[trigger]
                    result@[cell_addr(x, y)] == raw_cell(data@, i as int, x, y),
            decreases data.len() - i,
        {
            let c = data[i];
            let ghost laid = result@;
            if c == LINE_FEED {
                px = 0;
                py += 1;
            } else {
                if py < GRID_SIDE && px < GRID_SIDE {
                    result.set_xy(px as u8, py as u8, c);
                }
                px += 1;
            }
            proof {
                result.lemma_view_len();
                assert forall|x: u8, y: u8| #[trigger]
                    result@[cell_addr(x, y)] == raw_cell(data@, i + 1, x, y) by {
                    assert(laid[cell_addr(x, y)] == raw_cell(data@, i as int, x, y));
                }
            }
            i += 1;
        }
        result
    }
}

/// A set of byte values, kept as 256 bits.
#[derive(Eq, PartialEq, Clone, Debug)]
pub struct Bits256 {
    data: [u8; 32],
}

/// Whether bit `idx` is set in the words of a bit set.
pub open spec fn bit_is_set(words: Seq<u8>, idx: u8) -> bool {
    (words[idx as int / 8] >> (idx % 8)) & 1 == 1
}

proof fn lemma_set_bit(word: u8, bit: u8, other: u8)
    by (bit_vector)
    requires
        bit < 8,
        other < 8,
    ensures
        (((word | (1u8 << bit)) >> other) & 1 == 1) <==> (other == bit || (word >> other) & 1
            == 1),
        (((word & !(1u8 << bit)) >> other) & 1 == 1) <==> (other != bit && (word >> other) & 1
            == 1),
{
}

proof fn lemma_zero_bits(other: u8)
    by (bit_vector)
    requires
        other < 8,
    ensures
        (0u8 >> other) & 1 == 0,
{
}

impl View for Bits256 {
    type V = Set<u8>;

    /// The byte values that are members.
    closed spec fn view(&self) -> Set<u8> {
        Set::new(|idx: u8| bit_is_set(self.data@, idx))
    }
}

impl Bits256 {
    pub const WORD_SIZE: usize = 8;

    pub const WORD_COUNT: usize = 32;

    pub const BIT_COUNT: usize = 256;

    /// The empty set.
    pub fn new() -> (r: Bits256)
        ensures
            r@ == Set::<u8>::empty(),
    {
        let r = Bits256 { data: [0u8; 32] };
        proof {
            assert forall|idx: u8| !bit_is_set(r.data@, idx) by {
                lemma_zero_bits(idx % 8);
            }
            assert(r@ =~= Set::<u8>::empty());
        }
        r
    }

    /// Makes `idx` a member where `value` holds, and takes it out otherwise.
    pub fn set(&mut self, idx: u8, value: bool)
        ensures
            final(self)@ == if value {
                old(self)@.insert(idx)
            } else {
                old(self)@.remove(idx)
            },
    {
        let byte: usize = idx as usize / 8;
        let shift: u8 = idx % 8;
        let bit: u8 = 1u8 << shift;
        let word: u8 = self.data[byte];
        let changed: u8 = if value {
            word | bit
        } else {
            word & !bit
        };
        self.data[byte] = changed;
        proof {
            assert forall|other: u8|
                bit_is_set(self.data@, other) == (if other == idx {
                    value
                } else {
                    bit_is_set(old(self).data@, other)
                }) by {
                if other as int / 8 == byte {
                    lemma_set_bit(word, shift, other % 8);
                }
            }
            if value {
                assert(self@ =~= old(self)@.insert(idx));
            } else {
                assert(self@ =~= old(self)@.remove(idx));
            }
        }
    }

    /// Whether `idx` is a member.
    pub fn get(&self, idx: u8) -> (r: bool)
        ensures
            r == self@.contains(idx),
    {
        let byte: usize = idx as usize / 8;
        (self.data[byte] >> (idx % 8)) & 1 == 1
    }

    /// Takes every member out.
    pub fn clear(&mut self)
        ensures
            final(self)@ == Set::<u8>::empty(),
    {
        let mut i: usize = 0;
        while i < 32
            invariant
                i <= 32,
                forall|k: int| 0 <= k < i ==> self.data@[k] == 0,
            decreases 32 - i,
        {
            self.data[i] = 0;
            i += 1;
        }
        proof {
            assert forall|idx: u8| !bit_is_set(self.data@, idx) by {
                lemma_zero_bits(idx % 8);
            }
            assert(self@ =~= Set::<u8>::empty());
        }
    }
}

} // verus!
