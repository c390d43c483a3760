use vstd::prelude::*;

verus! {

/// Samples in a 12-second excerpt at 16 kHz.
pub const EXCERPT_SAMPLES: usize = 192000;

/// Consecutive ranges of at most `excerpt_len` samples covering `start..len`.
pub open spec fn ranges_from(start: int, len: int, excerpt_len: int) -> Seq<(usize, usize)>
    decreases len - start,
    when excerpt_len > 0
{
    if start >= len {
        Seq::empty()
    } else {
        let end = if start + excerpt_len < len {
            start + excerpt_len
        } else {
            len
        };
        seq![(start as usize, end as usize)] + ranges_from(end, len, excerpt_len)
    }
}

/// The excerpts that a buffer of `len` samples is cut into from `offset` on:
/// consecutive ranges of `excerpt_len` samples, the last one possibly
/// shorter; a single empty range where nothing is left after the offset.
pub open spec fn excerpt_ranges_spec(len: usize, offset: usize, excerpt_len: usize) -> Seq<
    (usize, usize),
> {
    if offset == len {
        seq![(len, len)]
    } else {
        ranges_from(offset as int, len as int, excerpt_len as int)
    }
}

/// Cuts `offset..len` into excerpts of `excerpt_len` samples (the last one
/// possibly shorter), as `(start, end)` ranges; at least one range is returned.
pub fn excerpt_ranges(len: usize, offset: usize, excerpt_len: usize) -> (r: Vec<(usize, usize)>)
    requires
        offset <= len,
        excerpt_len > 0,
    ensures
        r@ == excerpt_ranges_spec(len, offset, excerpt_len),
        r@.len() >= 1,
{
    let mut out: Vec<(usize, usize)> = Vec::new();
    if offset == len {
        out.push((len, len));
        return out;
    }
    let mut start = offset;
    while start < len
        invariant
            offset <= start <= len,
            excerpt_len > 0,
            offset < len,
            out@ + ranges_from(start as int, len as int, excerpt_len as int) == ranges_from(
                offset as int,
                len as int,
                excerpt_len as int,
            ),
            start > offset ==> out@.len() >= 1,
        decreases len - start,
    {
        let end = if excerpt_len < len - start {
            start + excerpt_len
        } else {
            len
        };
        let ghost before = out@;
        out.push((start, end));
        assert(before + ranges_from(start as int, len as int, excerpt_len as int) =~= out@
            + ranges_from(end as int, len as int, excerpt_len as int));
        start = end;
    }
    assert(ranges_from(len as int, len as int, excerpt_len as int) =~= Seq::<(usize, usize)>::empty());
    assert(out@ =~= ranges_from(offset as int, len as int, excerpt_len as int));
    out
}

} // verus!
