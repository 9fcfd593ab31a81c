//! Laws of the diff and patch codec, stated over the grids' cells.

use crate::bytegrid::{
    addr_after, addr_high, addr_low, addr_of, diff_spec, diff_upto, hunk_end, hunk_records,
    lemma_diff_upto_shape, parse_spec, patch_hunk, patch_spec, prepend_hunks, serialize_spec, Hunk,
    GRID_CELLS,
};
use vstd::prelude::*;

verus! {

/// Scanning a grid against itself finds no hunk.
pub proof fn lemma_diff_upto_same(grid: Seq<u8>, n: int)
    ensures
        diff_upto(grid, grid, n) == Seq::<Hunk>::empty(),
    decreases n,
{
    if n > 0 {
        lemma_diff_upto_same(grid, n - 1);
    }
}

/// The diff of a grid with itself has no hunk.
pub proof fn lemma_diff_of_equal_is_empty(grid: Seq<u8>)
    ensures
        diff_spec(grid, grid).len() == 0,
{
    lemma_diff_upto_same(grid, GRID_CELLS as int);
}

/// Writing a single hunk list of one hunk is writing that hunk.
proof fn lemma_patch_one(grid: Seq<u8>, h: Hunk)
    ensures
        patch_spec(grid, seq![h]) == patch_hunk(grid, h),
{
    assert(seq![h].drop_last() =~= Seq::<Hunk>::empty());
    assert(patch_spec(grid, seq![h]) == patch_hunk(
        patch_spec(grid, seq![h].drop_last()),
        seq![h].last(),
    ));
}

/// Writing two lists of hunks one after the other is writing their
/// concatenation.
pub proof fn lemma_patch_concat(grid: Seq<u8>, first: Seq<Hunk>, second: Seq<Hunk>)
    ensures
        patch_spec(grid, first + second) == patch_spec(patch_spec(grid, first), second),
    decreases second.len(),
{
    if second.len() == 0 {
        assert(first + second =~= first);
    } else {
        lemma_patch_concat(grid, first, second.drop_last());
        assert((first + second).drop_last() =~= first + second.drop_last());
        assert((first + second).last() == second.last());
    }
}

/// Patching keeps the number of cells.
pub proof fn lemma_patch_len(grid: Seq<u8>, hunks: Seq<Hunk>)
    ensures
        patch_spec(grid, hunks).len() == grid.len(),
    decreases hunks.len(),
{
    if hunks.len() > 0 {
        lemma_patch_len(grid, hunks.drop_last());
    }
}

/// Writing the hunks found below `n` into `before` gives `after` below `n`
/// and leaves `before` from `n` on.
pub proof fn lemma_patch_diff_upto(before: Seq<u8>, after: Seq<u8>, n: int)
    requires
        0 <= n <= GRID_CELLS,
        before.len() == GRID_CELLS,
        after.len() == GRID_CELLS,
    ensures
        patch_spec(before, diff_upto(before, after, n)) == Seq::new(
            GRID_CELLS as nat,
            |a: int| if a < n { after[a] } else { before[a] },
        ),
    decreases n,
{
    let goal = Seq::new(GRID_CELLS as nat, |a: int| if a < n { after[a] } else { before[a] });
    if n <= 0 {
        assert(patch_spec(before, diff_upto(before, after, n)) =~= goal);
    } else {
        lemma_patch_diff_upto(before, after, n - 1);
        lemma_diff_upto_shape(before, after, n - 1);
        let prev = diff_upto(before, after, n - 1);
        let cur = diff_upto(before, after, n);
        let i = n - 1;
        let prev_grid = patch_spec(before, prev);
        if before[i] == after[i] {
            assert(prev_grid =~= goal);
        } else if prev.len() > 0 && i - hunk_end(prev.last()) <= 3 {
            let last = prev.last();
            assert(prev[prev.len() - 1] == last);
            let grown = (last.0, last.1 + after.subrange(hunk_end(last), i + 1));
            let inner = patch_spec(before, prev.drop_last());
            lemma_patch_len(before, prev.drop_last());
            assert(cur.drop_last() =~= prev.drop_last());
            assert(cur.last() == grown);
            assert(prev_grid == patch_hunk(inner, last));
            assert(patch_spec(before, cur) == patch_hunk(inner, grown));
            assert forall|a: int| 0 <= a < GRID_CELLS implies patch_hunk(inner, grown)[a]
                == goal[a] by {
                if last.0 as int <= a < hunk_end(grown) {
                    assert(grown.1 =~= after.subrange(last.0 as int, i + 1));
                } else {
                    assert(prev_grid[a] == inner[a]);
                }
            }
            assert(patch_hunk(inner, grown) =~= goal);
        } else {
            let fresh = (i as u16, seq![after[i]]);
            assert(cur.drop_last() =~= prev);
            assert(cur.last() == fresh);
            assert(patch_spec(before, cur) == patch_hunk(prev_grid, fresh));
            assert(patch_hunk(prev_grid, fresh) =~= goal);
        }
    }
}

/// Patching a grid with its diff against another grid gives that other grid.
pub proof fn lemma_patch_of_diff(before: Seq<u8>, after: Seq<u8>)
    requires
        before.len() == GRID_CELLS,
        after.len() == GRID_CELLS,
    ensures
        patch_spec(before, diff_spec(before, after)) == after,
{
    lemma_patch_diff_upto(before, after, GRID_CELLS as int);
    assert(patch_spec(before, diff_spec(before, after)) =~= after);
}

/// The hunks that the records of one hunk are read back as: its bytes in
/// fragments of at most 256, each at its own address.
pub open spec fn fragments_of(start: u16, bytes: Seq<u8>) -> Seq<Hunk>
    decreases bytes.len(),
{
    if bytes.len() == 0 {
        Seq::empty()
    } else {
        let n: int = if bytes.len() < 256 { bytes.len() as int } else { 256 };
        seq![(start, bytes.subrange(0, n))] + fragments_of(
            addr_after(start, n),
            bytes.subrange(n, bytes.len() as int),
        )
    }
}

/// The fragments of all the hunks, in order.
pub open spec fn fragments(hunks: Seq<Hunk>) -> Seq<Hunk>
    decreases hunks.len(),
{
    if hunks.len() == 0 {
        Seq::empty()
    } else {
        fragments(hunks.drop_last()) + fragments_of(hunks.last().0, hunks.last().1)
    }
}

/// No hunk reaches past the last cell.
pub open spec fn hunks_in_range(hunks: Seq<Hunk>) -> bool {
    forall|k: int| 0 <= k < hunks.len() ==> hunk_end(#[trigger] hunks[k]) <= GRID_CELLS
}

/// The records of one hunk, followed by more bytes, are read back as the
/// hunk's fragments followed by what the other bytes are read as.
pub proof fn lemma_parse_records(start: u16, bytes: Seq<u8>, rest: Seq<u8>)
    ensures
        parse_spec(hunk_records(start, bytes) + rest) == prepend_hunks(
            fragments_of(start, bytes),
            parse_spec(rest),
        ),
    decreases bytes.len(),
{
    if bytes.len() == 0 {
        assert(hunk_records(start, bytes) + rest =~= rest);
        if parse_spec(rest) is Some {
            assert(fragments_of(start, bytes) + parse_spec(rest)->0 =~= parse_spec(rest)->0);
        }
    } else {
        let n: int = if bytes.len() < 256 { bytes.len() as int } else { 256 };
        let first = bytes.subrange(0, n);
        let tail = bytes.subrange(n, bytes.len() as int);
        let next = addr_after(start, n);
        let header = seq![addr_low(start), addr_high(start), (n - 1) as u8];
        let data = hunk_records(start, bytes) + rest;
        lemma_parse_records(next, tail, rest);
        assert(data =~= header + first + (hunk_records(next, tail) + rest));
        assert(data[0] == addr_low(start));
        assert(data[1] == addr_high(start));
        assert(data[2] == (n - 1) as u8);
        assert(addr_of(data[0], data[1]) == start);
        assert(data.subrange(3, 3 + n) =~= first);
        assert(data.subrange(3 + n, data.len() as int) =~= hunk_records(next, tail) + rest);
        if parse_spec(rest) is Some {
            let t = parse_spec(rest)->0;
            assert(seq![(start, first)] + (fragments_of(next, tail) + t) =~= fragments_of(
                start,
                bytes,
            ) + t);
        }
    }
}

/// The binary form of a list of hunks, followed by more bytes, is read back
/// as the hunks' fragments followed by what the other bytes are read as.
pub proof fn lemma_parse_serialized(hunks: Seq<Hunk>, rest: Seq<u8>)
    ensures
        parse_spec(serialize_spec(hunks) + rest) == prepend_hunks(
            fragments(hunks),
            parse_spec(rest),
        ),
    decreases hunks.len(),
{
    if hunks.len() == 0 {
        assert(serialize_spec(hunks) + rest =~= rest);
        if parse_spec(rest) is Some {
            assert(fragments(hunks) + parse_spec(rest)->0 =~= parse_spec(rest)->0);
        }
    } else {
        let last = hunks.last();
        let records = hunk_records(last.0, last.1);
        lemma_parse_records(last.0, last.1, rest);
        lemma_parse_serialized(hunks.drop_last(), records + rest);
        assert(serialize_spec(hunks) + rest =~= serialize_spec(hunks.drop_last()) + (records
            + rest));
        if parse_spec(rest) is Some {
            let t = parse_spec(rest)->0;
            assert(fragments(hunks.drop_last()) + (fragments_of(last.0, last.1) + t)
                =~= fragments(hunks) + t);
        }
    }
}

/// The binary form of any list of hunks can be read back, and gives the
/// hunks' fragments.
pub proof fn lemma_deserialize_serialized(hunks: Seq<Hunk>)
    ensures
        parse_spec(serialize_spec(hunks)) == Some(fragments(hunks)),
{
    lemma_parse_serialized(hunks, Seq::empty());
    assert(serialize_spec(hunks) + Seq::<u8>::empty() =~= serialize_spec(hunks));
    assert(fragments(hunks) + Seq::<Hunk>::empty() =~= fragments(hunks));
}

/// Writing the fragments of a hunk that ends within the grid is writing the
/// hunk.
pub proof fn lemma_patch_fragments_of(grid: Seq<u8>, start: u16, bytes: Seq<u8>)
    requires
        grid.len() == GRID_CELLS,
        start + bytes.len() <= GRID_CELLS,
    ensures
        patch_spec(grid, fragments_of(start, bytes)) == patch_hunk(grid, (start, bytes)),
    decreases bytes.len(),
{
    if bytes.len() == 0 {
        assert(patch_hunk(grid, (start, bytes)) =~= grid);
    } else {
        let n: int = if bytes.len() < 256 { bytes.len() as int } else { 256 };
        let first = bytes.subrange(0, n);
        let tail = bytes.subrange(n, bytes.len() as int);
        let next = addr_after(start, n);
        let mid = patch_hunk(grid, (start, first));
        lemma_patch_one(grid, (start, first));
        lemma_patch_concat(grid, seq![(start, first)], fragments_of(next, tail));
        lemma_patch_fragments_of(mid, next, tail);
        assert(patch_hunk(mid, (next, tail)) =~= patch_hunk(grid, (start, bytes)));
    }
}

/// Writing the fragments of hunks that end within the grid is writing the
/// hunks.
pub proof fn lemma_patch_fragments(grid: Seq<u8>, hunks: Seq<Hunk>)
    requires
        grid.len() == GRID_CELLS,
        hunks_in_range(hunks),
    ensures
        patch_spec(grid, fragments(hunks)) == patch_spec(grid, hunks),
    decreases hunks.len(),
{
    if hunks.len() > 0 {
        let last = hunks.last();
        let init = hunks.drop_last();
        assert(hunks[hunks.len() - 1] == last);
        assert forall|k: int| 0 <= k < init.len() implies hunk_end(#[trigger] init[k])
            <= GRID_CELLS by {
            assert(init[k] == hunks[k]);
        }
        lemma_patch_fragments(grid, init);
        lemma_patch_concat(grid, fragments(init), fragments_of(last.0, last.1));
        lemma_patch_len(grid, init);
        lemma_patch_fragments_of(patch_spec(grid, init), last.0, last.1);
    }
}

/// A diff written in its binary form and read back still turns the first grid
/// into the second.
pub proof fn lemma_serialized_diff_round_trip(before: Seq<u8>, after: Seq<u8>)
    requires
        before.len() == GRID_CELLS,
        after.len() == GRID_CELLS,
    ensures
        parse_spec(serialize_spec(diff_spec(before, after))) is Some,
        patch_spec(before, parse_spec(serialize_spec(diff_spec(before, after)))->0) == after,
{
    let hunks = diff_spec(before, after);
    lemma_diff_upto_shape(before, after, GRID_CELLS as int);
    lemma_deserialize_serialized(hunks);
    lemma_patch_fragments(before, hunks);
    lemma_patch_of_diff(before, after);
}

} // verus!
