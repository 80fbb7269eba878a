//! The paginator: slices a filtered sequence into fixed-size pages and
//! reports whether further pages exist.

use vstd::prelude::*;
use crate::entry::{CatalogEntry, EntryModel};

verus! {

/// Fixed page size of the virtual directory.
pub const PAGE_SIZE: usize = 12;

/// The mathematical value of a page result.
pub struct PageModel {
    pub entries: Seq<EntryModel>,
    pub has_more: bool,
}

/// One page of a filtered directory — at most `PAGE_SIZE` entries — plus
/// whether further pages exist.
#[derive(Debug, PartialEq, Eq)]
pub struct PageResult {
    pub entries: Vec<CatalogEntry>,
    pub has_more: bool,
}

impl View for PageResult {
    type V = PageModel;

    open spec fn view(&self) -> PageModel {
        PageModel { entries: self.entries.deep_view(), has_more: self.has_more }
    }
}

/// The element offset of a 1-based page; pages below 1 clamp to the
/// start.
pub open spec fn page_offset(page: int) -> int {
    if page < 1 {
        0
    } else {
        (page - 1) * (PAGE_SIZE as int)
    }
}

/// The subsequence `[offset, min(offset + PAGE_SIZE, len))`, empty when
/// the offset lies at or past the end.
pub open spec fn page_slice(s: Seq<EntryModel>, page: int) -> Seq<EntryModel> {
    let off = page_offset(page);
    if off >= s.len() {
        Seq::empty()
    } else if off + PAGE_SIZE <= s.len() {
        s.subrange(off, off + PAGE_SIZE as int)
    } else {
        s.subrange(off, s.len() as int)
    }
}

/// More pages follow exactly when entries remain past this page.
pub open spec fn page_has_more(s: Seq<EntryModel>, page: int) -> bool {
    s.len() > page_offset(page) + PAGE_SIZE
}

/// `clamp(n - (page-1)*PAGE_SIZE, 0, PAGE_SIZE)`: the length of a page.
pub open spec fn clamped_page_len(n: int, page: int) -> int {
    let r = n - page_offset(page);
    if r < 0 {
        0
    } else if r > PAGE_SIZE {
        PAGE_SIZE as int
    } else {
        r
    }
}

/// Slices one 1-based page out of a filtered sequence. The result holds
/// `clamp(n - (page-1)*12, 0, 12)` entries in their original order, and
/// `has_more` holds exactly when `n > page*12` (for pages from 1 up).
pub fn paginate(entries: &Vec<CatalogEntry>, page: i64) -> (r: PageResult)
    ensures
        r@.entries == page_slice(entries.deep_view(), page as int),
        r.has_more == page_has_more(entries.deep_view(), page as int),
        r@.entries.len() == clamped_page_len(entries.deep_view().len() as int, page as int),
        r@.entries.len() <= PAGE_SIZE,
{
    let ghost dv = entries.deep_view();
    let n = entries.len();
    let off: usize;
    if page < 1 {
        off = 0;
    } else {
        let pm1 = (page - 1) as u64;
        if pm1 >= (n as u64) || pm1 > (usize::MAX as u64) / 12 {
            off = n;
        } else {
            let o = (pm1 * 12) as usize;
            off = if o > n {
                n
            } else {
                o
            };
        }
    }
    proof {
        let offm = page_offset(page as int);
        assert(off == if offm > dv.len() {
            dv.len() as int
        } else {
            offm
        });
    }
    let end = if n - off > PAGE_SIZE {
        off + PAGE_SIZE
    } else {
        n
    };
    let mut out: Vec<CatalogEntry> = Vec::new();
    let mut k = off;
    proof {
        assert(out.deep_view() =~= dv.subrange(off as int, off as int));
    }
    while k < end
        invariant
            off <= k <= end <= n,
            n == entries@.len(),
            dv == entries.deep_view(),
            dv.len() == n,
            out.deep_view() == dv.subrange(off as int, k as int),
        decreases end - k,
    {
        let ghost pre = out.deep_view();
        out.push(entries[k].clone());
        proof {
            assert(out.deep_view() =~= pre.push(dv[k as int]));
            assert(dv.subrange(off as int, k + 1) =~= dv.subrange(off as int, k as int).push(
                dv[k as int],
            ));
        }
        k += 1;
    }
    let has_more = n - off > PAGE_SIZE;
    proof {
        if page_offset(page as int) >= dv.len() {
            assert(out.deep_view() =~= Seq::<EntryModel>::empty());
        }
    }
    PageResult { entries: out, has_more }
}

} // verus!
