use vstd::prelude::*;

verus! {

/// A contiguous window `[offset, offset + length)` into a geometry buffer.
#[derive(Clone, Copy, Debug, PartialEq, Eq, Structural)]
pub struct Range {
    pub offset: usize,
    pub length: usize,
}

impl Range {
    /// Creates a range from its offset and its length.
    pub fn new(offset: usize, length: usize) -> (r: Range)
        ensures
            r == Range::new_spec(offset, length),
    {
        Range { offset, length }
    }

    /// The range with this offset and length.
    pub open spec fn new_spec(offset: usize, length: usize) -> Range {
        Range { offset, length }
    }

    /// One past the last index of the range.
    pub open spec fn end(self) -> int {
        self.offset + self.length
    }
}


/// The slices that a range of `length` scalars at `offset` is replayed in, at
/// most `size` scalars each: `length / size` full slices from `offset` on,
/// then one slice with the remainder, if any.
pub open spec fn chunk_spec(offset: int, length: int, size: int) -> Seq<Range> {
    let full = length / size;
    let count = if full * size < length { full + 1 } else { full };
    Seq::new(
        count as nat,
        |i: int|
            Range {
                offset: (offset + i * size) as usize,
                length: (if i < full { size } else { length - full * size }) as usize,
            },
    )
}

/// The sum of the lengths of the ranges.
pub open spec fn total_length(rs: Seq<Range>) -> int
    decreases rs.len(),
{
    if rs.len() == 0 {
        0
    } else {
        total_length(rs.drop_last()) + rs.last().length
    }
}

/// The scalars of `buf` that the ranges cover, one range after the other.
pub open spec fn gather(buf: Seq<u32>, rs: Seq<Range>) -> Seq<u32>
    decreases rs.len(),
{
    if rs.len() == 0 {
        Seq::empty()
    } else {
        let r = rs.last();
        gather(buf, rs.drop_last()) + buf.subrange(r.offset as int, r.end())
    }
}

/// Splits `range` into the slices that a backend taking at most `size`
/// scalars per call receives, in ascending order.
pub fn chunks(range: Range, size: usize) -> (r: Vec<Range>)
    requires
        size > 0,
        range.end() <= usize::MAX,
    ensures
        r@ == chunk_spec(range.offset as int, range.length as int, size as int),
{
    let ghost spec_r = chunk_spec(range.offset as int, range.length as int, size as int);
    let full = range.length / size;
    proof {
        assert(full * size <= range.length) by (nonlinear_arith)
            requires
                full == range.length / size,
                size > 0,
        ;
    }
    let mut out: Vec<Range> = Vec::new();
    let mut i: usize = 0;
    while i < full
        invariant
            0 <= i <= full,
            full == range.length / size,
            full * size <= range.length,
            range.end() <= usize::MAX,
            size > 0,
            spec_r == chunk_spec(range.offset as int, range.length as int, size as int),
            out@ == spec_r.take(i as int),
        decreases full - i,
    {
        proof {
            assert(i * size + size <= full * size) by (nonlinear_arith)
                requires
                    i < full,
                    size > 0,
            ;
        }
        let start = range.offset + i * size;
        out.push(Range::new(start, size));
        i = i + 1;
        assert(out@ =~= spec_r.take(i as int));
    }
    if full * size < range.length {
        out.push(Range::new(range.offset + full * size, range.length - full * size));
    }
    assert(out@ =~= spec_r);
    out
}


spec fn covered(k: int, size: int, length: int) -> int {
    if k * size < length {
        k * size
    } else {
        length
    }
}

proof fn lemma_chunk_prefix(buf: Seq<u32>, offset: int, length: int, size: int, k: int)
    requires
        size > 0,
        0 <= offset,
        0 <= length,
        offset + length <= buf.len(),
        offset + length <= usize::MAX,
        size <= usize::MAX,
        0 <= k <= chunk_spec(offset, length, size).len(),
    ensures
        total_length(chunk_spec(offset, length, size).take(k)) == covered(k, size, length),
        gather(buf, chunk_spec(offset, length, size).take(k)) == buf.subrange(
            offset,
            offset + covered(k, size, length),
        ),
    decreases k,
{
    let cs = chunk_spec(offset, length, size);
    let full = length / size;
    assert(full * size <= length) by (nonlinear_arith)
        requires
            full == length / size,
            size > 0,
            length >= 0,
    ;
    assert(length < full * size + size) by (nonlinear_arith)
        requires
            full == length / size,
            size > 0,
            length >= 0,
    ;
    if k == 0 {
        assert(cs.take(0) =~= Seq::<Range>::empty());
        assert(buf.subrange(offset, offset) =~= Seq::<u32>::empty());
        assert(gather(buf, cs.take(0)) =~= buf.subrange(offset, offset));
        assert(0 * size == 0);
        assert(total_length(cs.take(0)) == 0);
    } else {
        lemma_chunk_prefix(buf, offset, length, size, k - 1);
        let prev = cs.take(k - 1);
        assert(cs.take(k).drop_last() =~= prev);
        let r = cs[k - 1];
        assert((k - 1) * size + size == k * size) by (nonlinear_arith);
        if k - 1 < full {
            assert(k * size <= full * size) by (nonlinear_arith)
                requires
                    k <= full,
                    size > 0,
            ;
            assert(r.offset == offset + (k - 1) * size);
            assert(r.length == size);
        } else {
            assert(k - 1 == full);
            assert(k * size == full * size + size) by (nonlinear_arith)
                requires
                    k == full + 1,
            ;
            assert(r.offset == offset + full * size);
            assert(r.length == length - full * size);
        }
        let covered_prev = covered(k - 1, size, length);
        assert(covered_prev == (k - 1) * size);
        let ck = cs.take(k);
        assert(ck.last() == r);
        assert(total_length(ck) == total_length(prev) + r.length);
        assert(gather(buf, ck) == gather(buf, prev) + buf.subrange(r.offset as int, r.end()));
        let covered = covered(k, size, length);
        assert(r.end() == offset + covered);
        assert(buf.subrange(offset, offset + covered_prev) + buf.subrange(
            r.offset as int,
            r.end(),
        ) =~= buf.subrange(offset, r.end()));
        assert(gather(buf, ck) =~= buf.subrange(offset, offset + covered));
        assert(total_length(ck) == covered);
    }
}

/// Replaying a range in chunks loses nothing and adds nothing: there are
/// `ceil(length / size)` chunks, each of one to `size` scalars, their lengths
/// sum to `length`, and read one after the other from `buf` they give back
/// exactly the scalars of the range.
pub proof fn lemma_chunks_cover(buf: Seq<u32>, offset: usize, length: usize, size: usize)
    requires
        size > 0,
        offset + length <= usize::MAX,
        offset + length <= buf.len(),
    ensures
        chunk_spec(offset as int, length as int, size as int).len() == (length + size - 1) / (
        size as int),
        forall|i: int|
            0 <= i < chunk_spec(offset as int, length as int, size as int).len() ==> 0 < #[trigger] chunk_spec(
                offset as int,
                length as int,
                size as int,
            )[i].length <= size,
        total_length(chunk_spec(offset as int, length as int, size as int)) == length,
        gather(buf, chunk_spec(offset as int, length as int, size as int)) == buf.subrange(
            offset as int,
            offset + length,
        ),
{
    let cs = chunk_spec(offset as int, length as int, size as int);
    let l = length as int;
    let c = size as int;
    let full = l / c;
    assert(full * c <= l) by (nonlinear_arith)
        requires
            full == l / c,
            c > 0,
            l >= 0,
    ;
    assert(l < full * c + c) by (nonlinear_arith)
        requires
            full == l / c,
            c > 0,
            l >= 0,
    ;
    if full * c < l {
        assert((l + c - 1) / c == full + 1) by (nonlinear_arith)
            requires
                full * c < l,
                l < full * c + c,
                c > 0,
        ;
    } else {
        assert((l + c - 1) / c == full) by (nonlinear_arith)
            requires
                full * c == l,
                c > 0,
        ;
    }
    lemma_chunk_prefix(buf, offset as int, l, c, cs.len() as int);
    assert(cs.take(cs.len() as int) =~= cs);
    if full * c < l {
        assert(cs.len() * c >= l) by (nonlinear_arith)
            requires
                cs.len() == full + 1,
                l < full * c + c,
        ;
    }
}

} // verus!
