//! The gallery's paging: which records each load of the endless scroll
//! brings in.
use vstd::prelude::*;

verus! {

/// How many records one load of the gallery brings in.
pub const PAGE_SIZE: usize = 10;

/// One load of the gallery: the records at positions `start..end`, and the
/// cursor of the next load.
pub struct Page {
    pub start: usize,
    pub end: usize,
    pub next: usize,
}

/// The positions `start..end` of the load at cursor `c` of a gallery of
/// `len` records.
pub open spec fn page_bounds(len: int, c: int) -> (int, int) {
    (if c < len { c } else { len }, if c + PAGE_SIZE < len { c + PAGE_SIZE } else { len })
}

/// The loads follow on from each other: each starts where the one before
/// it ended, so that scrolling on shows every record once, in order.
pub proof fn lemma_pages_follow_on(len: int, c: int)
    requires
        0 <= c,
        0 <= len,
    ensures
        page_bounds(len, c).1 == page_bounds(len, c + PAGE_SIZE).0,
        page_bounds(len, c).0 <= page_bounds(len, c).1,
        page_bounds(len, c).1 - page_bounds(len, c).0 <= PAGE_SIZE,
{
}

/// The load at `cursor` (the first load where there is none) of a gallery of
/// `len` records: it skips `cursor` records and takes up to ten, and the next
/// load starts ten further on.
pub fn page(len: usize, cursor: Option<usize>) -> (p: Page)
    requires
        cursor matches Some(c) ==> c + PAGE_SIZE <= usize::MAX,
    ensures
        ({
            let c: int = match cursor {
                Some(c) => c as int,
                None => 0,
            };
            &&& (p.start as int, p.end as int) == page_bounds(len as int, c)
            &&& p.next == c + PAGE_SIZE
        }),
{
    let c: usize = match cursor {
        Some(c) => c,
        None => 0,
    };
    let start = if c < len {
        c
    } else {
        len
    };
    let end = if c + PAGE_SIZE < len {
        c + PAGE_SIZE
    } else {
        len
    };
    Page { start: start, end: end, next: c + PAGE_SIZE }
}

} // verus!
