//! First-fit allocator of address ranges.

use core::ops::Range;
use vstd::prelude::*;

verus! {

/// Hands out disjoint pieces of one address range, lowest address first.
pub struct RangeAllocator {
    pool: Range<usize>,
    allocated: Vec<Range<usize>>,
}

/// Whether the address lies in the range.
pub open spec fn within(range: Range<usize>, addr: int) -> bool {
    range.start <= addr < range.end
}

/// Whether the address lies in the pool and in none of the pieces.
pub open spec fn is_free(pool: Range<usize>, pieces: Seq<Range<usize>>, addr: int) -> bool {
    within(pool, addr) && forall|i: int|
        0 <= i < pieces.len() ==> !within(#[trigger] pieces[i], addr)
}

/// Whether `size` free addresses follow each other from `start`.
pub open spec fn fits(
    pool: Range<usize>,
    pieces: Seq<Range<usize>>,
    start: int,
    size: int,
) -> bool {
    forall|addr: int| start <= addr < start + size ==> #[trigger] is_free(pool, pieces, addr)
}

/// Whether the pieces are non-empty, lie in the pool, and follow each other
/// without overlap.
pub open spec fn laid_out(pool: Range<usize>, pieces: Seq<Range<usize>>) -> bool {
    &&& pool.start <= pool.end
    &&& forall|i: int|
        0 <= i < pieces.len() ==> pool.start <= (#[trigger] pieces[i]).start < pieces[i].end
            <= pool.end
    &&& forall|i: int, j: int|
        0 <= i < j < pieces.len() ==> (#[trigger] pieces[i]).end <= (#[trigger] pieces[j]).start
}

/// Whether `after` is `before` with the piece put in at `i`.
pub open spec fn inserted(
    before: Seq<Range<usize>>,
    after: Seq<Range<usize>>,
    range: Range<usize>,
    i: int,
) -> bool {
    0 <= i <= before.len() && after == before.insert(i, range)
}

/// What becomes of the pieces when one of the given size is asked for: the
/// lowest that fits is handed out, and nothing changes where none fits.
pub open spec fn allocated_lowest(
    pool: Range<usize>,
    before: Seq<Range<usize>>,
    after: Seq<Range<usize>>,
    size: usize,
    r: Option<Range<usize>>,
) -> bool {
    match r {
        Some(range) => {
            &&& range.end - range.start == size
            &&& fits(pool, before, range.start as int, size as int)
            &&& forall|start: int|
                start < range.start ==> !#[trigger] fits(pool, before, start, size as int)
            &&& exists|i: int| #[trigger] inserted(before, after, range, i)
        },
        None => {
            &&& after == before
            &&& forall|start: int| !#[trigger] fits(pool, before, start, size as int)
        },
    }
}

/// What becomes of the pieces when one is given back: it is taken out if it was
/// handed out, and nothing changes otherwise.
pub open spec fn given_back(
    before: Seq<Range<usize>>,
    after: Seq<Range<usize>>,
    range: Range<usize>,
    r: bool,
) -> bool {
    &&& r == before.contains(range)
    &&& r ==> exists|i: int|
        0 <= i < before.len() && before[i] == range && after == #[trigger] before.remove(i)
    &&& !r ==> after == before
}

impl RangeAllocator {
    /// The range that the allocator serves from.
    pub closed spec fn pool(&self) -> Range<usize> {
        self.pool
    }

    /// The pieces that are handed out, by address.
    pub closed spec fn allocated(&self) -> Seq<Range<usize>> {
        self.allocated@
    }

    /// The pieces that are handed out do not overlap.
    pub open spec fn wf(&self) -> bool {
        laid_out(self.pool(), self.allocated())
    }

    /// Creates an allocator that serves from `pool`.
    pub fn new(pool: Range<usize>) -> (r: Self)
        requires
            pool.start <= pool.end,
        ensures
            r.wf(),
            r.pool() == pool,
            r.allocated() == Seq::<Range<usize>>::empty(),
    {
        RangeAllocator { pool, allocated: Vec::new() }
    }

    /// Hands out the lowest free piece of the given size.
    pub fn allocate_range(&mut self, size: usize) -> (r: Option<Range<usize>>)
        requires
            old(self).wf(),
            size > 0,
        ensures
            final(self).wf(),
            final(self).pool() == old(self).pool(),
            allocated_lowest(
                old(self).pool(),
                old(self).allocated(),
                final(self).allocated(),
                size,
                r,
            ),
    {
        let ghost pieces = self.allocated@;
        let ghost pool = self.pool;
        let mut cursor: usize = self.pool.start;
        let mut i: usize = 0;
        proof {
            assert forall|start: int| #[trigger] fits(pool, pieces, start, size as int) implies start
                >= cursor by {
                assert(is_free(pool, pieces, start));
            }
        }
        loop
            invariant
                self.allocated@ == pieces,
                self.pool == pool,
                pieces == old(self).allocated(),
                pool == old(self).pool(),
                laid_out(pool, pieces),
                size > 0,
                i <= pieces.len(),
                pool.start <= cursor <= pool.end,
                forall|j: int| 0 <= j < i ==> (#[trigger] pieces[j]).end <= cursor,
                forall|j: int| i <= j < pieces.len() ==> cursor <= (#[trigger] pieces[j]).start,
                forall|start: int| #[trigger]
                    fits(pool, pieces, start, size as int) ==> start >= cursor,
            decreases pieces.len() - i,
        {
            let gap_end: usize = if i < self.allocated.len() {
                self.allocated[i].start
            } else {
                self.pool.end
            };
            if gap_end - cursor >= size {
                let range: Range<usize> = Range { start: cursor, end: cursor + size };
                proof {
                    assert forall|addr: int| cursor <= addr < cursor + size implies #[trigger] is_free(
                        pool,
                        pieces,
                        addr,
                    ) by {
                        assert forall|j: int| 0 <= j < pieces.len() implies !within(
                            #[trigger] pieces[j],
                            addr,
                        ) by {
                            if i <= j {
                                assert(gap_end <= pieces[j].start);
                            }
                        }
                    }
                }
                let taken: Range<usize> = Range { start: cursor, end: cursor + size };
                self.allocated.insert(i, taken);
                proof {
                    assert(self.allocated@ =~= pieces.insert(i as int, range));
                    assert(inserted(pieces, self.allocated@, range, i as int));
                    assert(fits(pool, pieces, range.start as int, size as int));
                }
                return Some(range);
            }
            if i >= self.allocated.len() {
                proof {
                    assert forall|start: int| !#[trigger] fits(pool, pieces, start, size as int) by {
                        if fits(pool, pieces, start, size as int) {
                            assert(is_free(pool, pieces, start + size - 1));
                        }
                    }
                }
                return None;
            }
            proof {
                let past = pieces[i as int].end;
                assert forall|start: int| #[trigger]
                    fits(pool, pieces, start, size as int) implies start >= past by {
                    if start < past {
                        if start < gap_end {
                            assert(start + size > gap_end);
                            assert(is_free(pool, pieces, gap_end as int));
                            assert(within(pieces[i as int], gap_end as int));
                        } else {
                            assert(is_free(pool, pieces, start));
                            assert(within(pieces[i as int], start));
                        }
                    }
                }
            }
            cursor = self.allocated[i].end;
            i = i + 1;
        }
    }

    /// Takes back a piece that was handed out. Returns whether there was such
    /// a piece.
    pub fn free_range(&mut self, range: Range<usize>) -> (r: bool)
        requires
            old(self).wf(),
        ensures
            final(self).wf(),
            final(self).pool() == old(self).pool(),
            given_back(old(self).allocated(), final(self).allocated(), range, r),
    {
        let ghost pieces = self.allocated@;
        let mut i: usize = 0;
        while i < self.allocated.len()
            invariant
                i <= self.allocated@.len(),
                self.allocated@ == pieces,
                pieces == old(self).allocated(),
                self.pool == old(self).pool(),
                laid_out(self.pool, pieces),
                forall|j: int| 0 <= j < i ==> #[trigger] pieces[j] != range,
            decreases pieces.len() - i,
        {
            if self.allocated[i].start == range.start && self.allocated[i].end == range.end {
                proof {
                    assert(pieces[i as int] == range);
                }
                let _removed = self.allocated.remove(i);
                return true;
            }
            i = i + 1;
        }
        false
    }
}

/// A piece just handed out overlaps none that was handed out before.
pub proof fn law_new_piece_is_disjoint(
    pool: Range<usize>,
    pieces: Seq<Range<usize>>,
    range: Range<usize>,
    i: int,
    addr: int,
)
    requires
        fits(pool, pieces, range.start as int, range.end - range.start),
        0 <= i < pieces.len(),
        within(range, addr),
    ensures
        !within(pieces[i], addr),
        within(pool, addr),
{
    assert(is_free(pool, pieces, addr));
}

/// Taking a piece back undoes handing it out: the piece is found, and the
/// pieces that are left are those of before.
pub proof fn law_free_undoes_allocate(
    pool: Range<usize>,
    pieces: Seq<Range<usize>>,
    i: int,
    range: Range<usize>,
    j: int,
)
    requires
        0 <= i <= pieces.len(),
        laid_out(pool, pieces.insert(i, range)),
        0 <= j <= pieces.len(),
        pieces.insert(i, range)[j] == range,
    ensures
        pieces.insert(i, range).contains(range),
        pieces.insert(i, range).remove(j) == pieces,
{
    let all = pieces.insert(i, range);
    assert(all[i] == range);
    assert(i == j);
    assert(all.remove(i) =~= pieces);
}

/// A piece that is handed out lies in the pool, has the size that was asked for,
/// overlaps no other piece, and is the lowest such piece: at every lower address
/// the pool has not begun or a piece is in the way. Where nothing is handed out,
/// a piece is in the way everywhere. Nothing else changes hands.
pub proof fn law_lowest_gap_is_handed_out(
    pool: Range<usize>,
    before: Seq<Range<usize>>,
    after: Seq<Range<usize>>,
    size: usize,
    r: Option<Range<usize>>,
    start: int,
)
    requires
        laid_out(pool, before),
        size > 0,
        allocated_lowest(pool, before, after, size, r),
        pool.start <= start,
        start + size <= pool.end,
    ensures
        match r {
            Some(range) => {
                &&& range.end == range.start + size
                &&& pool.start <= range.start && range.end <= pool.end
                &&& forall|i: int|
                    0 <= i < before.len() ==> (#[trigger] before[i]).end <= range.start || range.end
                        <= before[i].start
                &&& start < range.start ==> exists|i: int|
                    0 <= i < before.len() && (#[trigger] before[i]).start < start + size && start
                        < before[i].end
                &&& after.len() == before.len() + 1
                &&& after.contains(range)
                &&& forall|i: int| 0 <= i < before.len() ==> after.contains(#[trigger] before[i])
            },
            None => {
                &&& exists|i: int|
                    0 <= i < before.len() && (#[trigger] before[i]).start < start + size && start
                        < before[i].end
                &&& after == before
            },
        },
{
    if r is None || start < r->0.start {
        assert(!fits(pool, before, start, size as int));
        let addr = choose|addr: int|
            start <= addr < start + size && !#[trigger] is_free(pool, before, addr);
        assert(within(pool, addr));
        let i = choose|i: int| 0 <= i < before.len() && within(#[trigger] before[i], addr);
        assert(before[i].start < start + size && start < before[i].end);
    }
    if let Some(range) = r {
        assert(is_free(pool, before, range.start as int));
        assert(is_free(pool, before, range.end - 1));
        assert forall|i: int| 0 <= i < before.len() implies (#[trigger] before[i]).end <= range.start
            || range.end <= before[i].start by {
            assert(!within(before[i], range.start as int));
            if before[i].start >= range.start && before[i].start < range.end {
                assert(is_free(pool, before, before[i].start as int));
                assert(within(before[i], before[i].start as int));
            }
        }
        let at = choose|at: int| #[trigger] inserted(before, after, range, at);
        assert(after[at] == range);
        assert forall|i: int| 0 <= i < before.len() implies after.contains(#[trigger] before[i]) by {
            if i < at {
                assert(after[i] == before[i]);
            } else {
                assert(after[i + 1] == before[i]);
            }
        }
    }
}

/// Only a piece that is handed out can be given back, with exactly the bounds
/// that it has. It is then no longer handed out, and all others still are.
pub proof fn law_only_own_pieces_are_taken_back(
    pool: Range<usize>,
    before: Seq<Range<usize>>,
    after: Seq<Range<usize>>,
    range: Range<usize>,
    r: bool,
)
    requires
        laid_out(pool, before),
        given_back(before, after, range, r),
    ensures
        r <==> exists|i: int|
            0 <= i < before.len() && (#[trigger] before[i]).start == range.start && before[i].end
                == range.end,
        !after.contains(range),
        forall|i: int|
            0 <= i < before.len() && #[trigger] before[i] != range ==> after.contains(before[i]),
        after.len() == before.len() - (if r {
            1int
        } else {
            0
        }),
{
    if r {
        let at = choose|at: int|
            0 <= at < before.len() && before[at] == range && after == #[trigger] before.remove(at);
        assert forall|i: int| 0 <= i < before.len() && #[trigger] before[i] != range implies
            after.contains(before[i]) by {
            if i < at {
                assert(after[i] == before[i]);
            } else {
                assert(after[i - 1] == before[i]);
            }
        }
        if after.contains(range) {
            let k = choose|k: int| 0 <= k < after.len() && after[k] == range;
            let i = if k < at {
                k
            } else {
                k + 1
            };
            assert(before[i] == range);
        }
    } else if exists|i: int|
        0 <= i < before.len() && (#[trigger] before[i]).start == range.start && before[i].end
            == range.end {
        let i = choose|i: int|
            0 <= i < before.len() && (#[trigger] before[i]).start == range.start && before[i].end
                == range.end;
        assert(before[i] == range);
    }
}

} // verus!
