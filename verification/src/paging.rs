//! Pagination of log listings: a listing returns one page of at most
//! `PAGE_SIZE` rows starting at a caller-supplied offset.

use vstd::prelude::*;

verus! {

/// The fixed page size of every log listing.
pub const PAGE_SIZE: u64 = 40;

/// The page of `rows` that an offset selects: up to `size` rows starting at
/// `offset`, or nothing when the offset lies past the end.
pub open spec fn page<T>(rows: Seq<T>, offset: int, size: int) -> Seq<T> {
    if offset >= rows.len() || offset < 0 || size < 0 {
        Seq::empty()
    } else if offset + size <= rows.len() {
        rows.subrange(offset, offset + size)
    } else {
        rows.subrange(offset, rows.len() as int)
    }
}

/// Law: no page holds more than `PAGE_SIZE` rows.
pub proof fn lemma_page_bounded<T>(rows: Seq<T>, offset: int)
    ensures
        page(rows, offset, PAGE_SIZE as int).len() <= PAGE_SIZE,
{
}

/// Law: over pairwise distinct rows, the page at offset `PAGE_SIZE` shares
/// no row with the page at offset zero — and the two pages differ whenever
/// a second page exists at all.
pub proof fn lemma_pagination<T>(rows: Seq<T>)
    requires
        rows.len() > PAGE_SIZE,
        forall|i: int, j: int| 0 <= i < j < rows.len() ==> rows[i] != rows[j],
    ensures
        page(rows, 0, PAGE_SIZE as int).len() == PAGE_SIZE,
        page(rows, PAGE_SIZE as int, PAGE_SIZE as int).len() >= 1,
        forall|x: T|
            #[trigger] page(rows, PAGE_SIZE as int, PAGE_SIZE as int).contains(x) ==> !page(
                rows,
                0,
                PAGE_SIZE as int,
            ).contains(x),
        page(rows, PAGE_SIZE as int, PAGE_SIZE as int) != page(rows, 0, PAGE_SIZE as int),
{
    let sz = PAGE_SIZE as int;
    let p0 = page(rows, 0, sz);
    let p1 = page(rows, sz, sz);
    assert forall|x: T| #[trigger] p1.contains(x) implies !p0.contains(x) by {
        let k = choose|k: int| 0 <= k < p1.len() && p1[k] == x;
        assert(rows[sz + k] == x);
        if p0.contains(x) {
            let j = choose|j: int| 0 <= j < p0.len() && p0[j] == x;
            assert(rows[j] == x);
        }
    }
    assert(p1[0] == rows[sz]);
    assert(p0[0] == rows[0]);
    assert(rows[0] != rows[sz]);
}

} // verus!
