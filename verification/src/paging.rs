//! Pages of the owner's lists: a select menu shows at most 25 entries.

use vstd::prelude::*;

verus! {

/// Entries on one page.
pub const PAGE_SIZE: usize = 25;

/// The page shown and the part of the lists that it covers.
#[derive(Clone, Copy, Debug, PartialEq, Eq, Structural)]
pub struct PageWindow {
    /// The page shown, counted from zero.
    pub page: usize,
    /// How many pages there are; at least one.
    pub pages: usize,
    /// First entry of the page.
    pub start: usize,
    /// One past the last entry of the page.
    pub end: usize,
}

/// The longest of the three lists, and one where all are empty.
pub open spec fn spec_total(promote: int, demote: int, kick: int) -> int {
    let a = if kick >= demote {
        kick
    } else {
        demote
    };
    let b = if a >= promote {
        a
    } else {
        promote
    };
    if b >= 1 {
        b
    } else {
        1
    }
}

/// The window of the page that is shown when `wanted` was asked for: the
/// last page where `wanted` lies behind it.
pub open spec fn spec_window(promote: int, demote: int, kick: int, wanted: int) -> PageWindow {
    let total = spec_total(promote, demote, kick);
    let pages = (total + 24) / 25;
    let page = if wanted < pages - 1 {
        wanted
    } else {
        pages - 1
    };
    let end = if (page + 1) * 25 < total {
        (page + 1) * 25
    } else {
        total
    };
    PageWindow {
        page: page as usize,
        pages: pages as usize,
        start: (page * 25) as usize,
        end: end as usize,
    }
}

/// The page to show of the owner's three lists.
pub fn page_window(promote: usize, demote: usize, kick: usize, wanted: usize) -> (window:
    PageWindow)
    ensures
        window == spec_window(promote as int, demote as int, kick as int, wanted as int),
        window.page < window.pages,
        window.start <= window.end,
{
    let a = if kick >= demote {
        kick
    } else {
        demote
    };
    let b = if a >= promote {
        a
    } else {
        promote
    };
    let total = if b >= 1 {
        b
    } else {
        1
    };
    let pages = if total % 25 > 0 {
        total / 25 + 1
    } else {
        total / 25
    };
    let page = if wanted < pages - 1 {
        wanted
    } else {
        pages - 1
    };
    let end = if page + 1 < pages {
        (page + 1) * 25
    } else {
        total
    };
    PageWindow { page, pages, start: page * 25, end }
}

/// The part of a list of `len` entries that falls on the page: from the
/// start of the page, or the end of the list where that comes first, up to
/// the end of the page, or the end of the list.
pub fn page_slice(len: usize, window: &PageWindow) -> (part: (usize, usize))
    ensures
        part.0 == if window.start < len {
            window.start
        } else {
            len
        },
        part.1 == if window.end < part.0 {
            part.0
        } else if window.end < len {
            window.end
        } else {
            len
        },
        part.0 <= part.1 <= len,
{
    let from = if window.start < len {
        window.start
    } else {
        len
    };
    let to = if window.end < from {
        from
    } else if window.end < len {
        window.end
    } else {
        len
    };
    (from, to)
}

/// The page that is asked for after a step back or forward from `current`:
/// never before the first.
pub fn turn_page(current: usize, forward: bool) -> (wanted: usize)
    ensures
        wanted == if forward {
            if current < usize::MAX {
                current + 1
            } else {
                current as int
            }
        } else if current > 0 {
            current - 1
        } else {
            0
        },
{
    if forward {
        if current < usize::MAX {
            current + 1
        } else {
            current
        }
    } else if current > 0 {
        current - 1
    } else {
        0
    }
}

} // verus!
