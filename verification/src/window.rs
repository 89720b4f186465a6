//! The range of positions that the paging arguments select.

use vstd::prelude::*;
use crate::cursor::{identities, optional_identity, CursorType};

verus! {

/// The half-open range `[start, end)` of positions that a page covers.
#[derive(Clone, Copy, Debug)]
pub struct Window {
    pub start: usize,
    pub end: usize,
}

impl Window {
    /// The window lies within a sequence of `len` items, and its end is not
    /// before its start.
    pub open spec fn fits(&self, len: nat) -> bool {
        self.start <= self.end <= len
    }
}

/// The last position of `ids` that holds `target`, if any holds it.
pub open spec fn last_position<A>(ids: Seq<A>, target: A) -> Option<int>
    decreases ids.len(),
{
    if ids.len() == 0 {
        None
    } else if ids.last() == target {
        Some(ids.len() - 1)
    } else {
        last_position(ids.drop_last(), target)
    }
}

/// The position just behind the item that `after` names, or 0 where `after`
/// is absent or names no item.
pub open spec fn index_after<A>(ids: Seq<A>, after: Option<A>) -> int {
    match after {
        Some(a) => match last_position(ids, a) {
            Some(i) => i + 1,
            None => 0,
        },
        None => 0,
    }
}

/// The position of the item that `before` names, or the length of the
/// sequence where `before` is absent or names no item.
pub open spec fn index_before<A>(ids: Seq<A>, before: Option<A>) -> int {
    match before {
        Some(b) => match last_position(ids, b) {
            Some(i) => i,
            None => ids.len() as int,
        },
        None => ids.len() as int,
    }
}

/// Where the page starts, given the two boundary positions.
pub open spec fn window_start(
    index_after: int,
    index_before: int,
    first: Option<int>,
    last: Option<int>,
) -> int {
    match (first, last) {
        (Some(_), _) => index_after,
        (None, Some(l)) => if index_before - l > index_after {
            index_before - l
        } else {
            index_after
        },
        (None, None) => index_after,
    }
}

/// Where the page would end if nothing kept the end from lying before the
/// start.
pub open spec fn unclamped_end(
    index_after: int,
    index_before: int,
    first: Option<int>,
    last: Option<int>,
    default_page_size: int,
) -> int {
    match (first, last) {
        (Some(f), _) => if index_after + f < index_before {
            index_after + f
        } else {
            index_before
        },
        (None, Some(_)) => index_before,
        (None, None) => if default_page_size < index_before {
            default_page_size
        } else {
            index_before
        },
    }
}

/// Where the page ends: an end that would lie before the start is moved up
/// to it, which leaves the page empty.
pub open spec fn window_end(
    index_after: int,
    index_before: int,
    first: Option<int>,
    last: Option<int>,
    default_page_size: int,
) -> int {
    let start = window_start(index_after, index_before, first, last);
    let end = unclamped_end(index_after, index_before, first, last, default_page_size);
    if end < start {
        start
    } else {
        end
    }
}

/// A count as the mathematical integer it stands for.
pub open spec fn count_value(count: Option<usize>) -> Option<int> {
    match count {
        Some(n) => Some(n as int),
        None => None,
    }
}

/// `last_position` gives a position that holds the target and behind which
/// no position holds it; it gives none only where no position holds it.
pub proof fn lemma_last_position<A>(ids: Seq<A>, target: A)
    ensures
        match last_position(ids, target) {
            Some(i) => 0 <= i < ids.len() && ids[i] == target && forall|j: int|
                i < j < ids.len() ==> ids[j] != target,
            None => forall|j: int| 0 <= j < ids.len() ==> ids[j] != target,
        },
    decreases ids.len(),
{
    if ids.len() > 0 && ids.last() != target {
        let front = ids.drop_last();
        lemma_last_position(front, target);
        assert forall|j: int| 0 <= j < front.len() implies front[j] == ids[j] by {}
    }
}

/// Both boundary positions lie within the sequence.
pub proof fn lemma_boundaries_in_range<A>(ids: Seq<A>, after: Option<A>, before: Option<A>)
    ensures
        0 <= index_after(ids, after) <= ids.len(),
        0 <= index_before(ids, before) <= ids.len(),
{
    if let Some(a) = after {
        lemma_last_position(ids, a);
    }
    if let Some(b) = before {
        lemma_last_position(ids, b);
    }
}

/// Whatever the counts are, the window lies within the sequence and its end
/// is not before its start.
pub proof fn lemma_window_in_range(
    index_after: int,
    index_before: int,
    first: Option<int>,
    last: Option<int>,
    default_page_size: int,
    len: int,
)
    requires
        0 <= index_after <= len,
        0 <= index_before <= len,
        first matches Some(f) ==> 0 <= f,
        last matches Some(l) ==> 0 <= l,
    ensures
        0 <= window_start(index_after, index_before, first, last) <= window_end(
            index_after,
            index_before,
            first,
            last,
            default_page_size,
        ) <= len,
{
}

/// A boundary that names no item selects what an absent boundary selects:
/// position 0 as `after`, the length of the sequence as `before`.
pub proof fn lemma_unmatched_boundary_counts_as_absent<A>(ids: Seq<A>, boundary: A)
    requires
        forall|i: int| 0 <= i < ids.len() ==> ids[i] != boundary,
    ensures
        index_after(ids, Some(boundary)) == index_after(ids, None),
        index_before(ids, Some(boundary)) == index_before(ids, None),
        index_after(ids, Some(boundary)) == 0,
        index_before(ids, Some(boundary)) == ids.len(),
{
    lemma_last_position(ids, boundary);
}

/// Where no identity occurs twice, the item at position `k` is found at
/// position `k`.
pub proof fn lemma_position_of_item<A>(ids: Seq<A>, k: int)
    requires
        ids.no_duplicates(),
        0 <= k < ids.len(),
    ensures
        last_position(ids, ids[k]) == Some(k),
        index_after(ids, Some(ids[k])) == k + 1,
        index_before(ids, Some(ids[k])) == k,
{
    lemma_last_position(ids, ids[k]);
}

/// Paging forward: where no identity occurs twice, `after` names the item at
/// position `k` and `first` is `n`, the window starts just behind `k` and
/// holds the next `n` positions, or those that are left.
pub proof fn lemma_forward_window<A>(ids: Seq<A>, k: int, n: int, default_page_size: int)
    requires
        ids.no_duplicates(),
        0 <= k < ids.len(),
        0 <= n,
    ensures
        window_start(
            index_after(ids, Some(ids[k])),
            index_before(ids, None),
            Some(n),
            None,
        ) == k + 1,
        window_end(
            index_after(ids, Some(ids[k])),
            index_before(ids, None),
            Some(n),
            None,
            default_page_size,
        ) == if k + 1 + n < ids.len() {
            k + 1 + n
        } else {
            ids.len() as int
        },
{
    lemma_position_of_item(ids, k);
}

/// Paging backward: where no identity occurs twice, `before` names the item
/// at position `k` and `last` is `n`, the window ends at `k` and holds the
/// `n` positions before it, or those that there are.
pub proof fn lemma_backward_window<A>(ids: Seq<A>, k: int, n: int, default_page_size: int)
    requires
        ids.no_duplicates(),
        0 <= k < ids.len(),
        0 <= n,
    ensures
        window_start(
            index_after(ids, None),
            index_before(ids, Some(ids[k])),
            None,
            Some(n),
        ) == if k - n > 0 {
            k - n
        } else {
            0
        },
        window_end(
            index_after(ids, None),
            index_before(ids, Some(ids[k])),
            None,
            Some(n),
            default_page_size,
        ) == k,
{
    lemma_position_of_item(ids, k);
}

/// With neither boundary nor count, the window starts at position 0 and
/// holds as many positions as the default page size allows.
pub proof fn lemma_default_window<A>(ids: Seq<A>, default_page_size: int)
    requires
        0 <= default_page_size,
    ensures
        window_start(index_after(ids, None), index_before(ids, None), None, None) == 0,
        window_end(
            index_after(ids, None),
            index_before(ids, None),
            None,
            None,
            default_page_size,
        ) == if default_page_size < ids.len() {
            default_page_size
        } else {
            ids.len() as int
        },
{
}

/// Finds the two boundary positions in one pass over the identities.
pub fn locate<C: CursorType>(ids: &Vec<C>, after: &Option<C>, before: &Option<C>) -> (r: (
    usize,
    usize,
))
    ensures
        r.0 == index_after(identities(ids@), optional_identity(*after)),
        r.1 == index_before(identities(ids@), optional_identity(*before)),
        r.0 <= ids.len(),
        r.1 <= ids.len(),
{
    let len = ids.len();
    let mut found_after: Option<usize> = None;
    let mut found_before: Option<usize> = None;
    let mut index: usize = 0;
    while index < len
        invariant
            len == ids.len(),
            index <= len,
            match *after {
                Some(a) => match found_after {
                    Some(i) => 0 < i <= index && last_position(
                        identities(ids@).take(index as int),
                        a.identity(),
                    ) == Some(i - 1),
                    None => last_position(identities(ids@).take(index as int), a.identity())
                        is None,
                },
                None => found_after is None,
            },
            match *before {
                Some(b) => match found_before {
                    Some(i) => i < index && last_position(
                        identities(ids@).take(index as int),
                        b.identity(),
                    ) == Some(i as int),
                    None => last_position(identities(ids@).take(index as int), b.identity())
                        is None,
                },
                None => found_before is None,
            },
        decreases len - index,
    {
        proof {
            let all = identities(ids@);
            assert(all.take(index + 1).drop_last() =~= all.take(index as int));
            assert(all.take(index + 1).last() == ids@[index as int].identity());
        }
        if let Some(a) = after {
            if a.same_identity(&ids[index]) {
                found_after = Some(index + 1);
            }
        }
        if let Some(b) = before {
            if b.same_identity(&ids[index]) {
                found_before = Some(index);
            }
        }
        index += 1;
    }
    proof {
        assert(identities(ids@).take(len as int) =~= identities(ids@));
    }
    let index_after = match found_after {
        Some(i) => i,
        None => 0,
    };
    let index_before = match found_before {
        Some(i) => i,
        None => len,
    };
    (index_after, index_before)
}

/// Computes the window from the two boundary positions and the counts.
pub fn resolve(
    index_after: usize,
    index_before: usize,
    first: Option<usize>,
    last: Option<usize>,
    default_page_size: usize,
) -> (w: Window)
    ensures
        w.start == window_start(
            index_after as int,
            index_before as int,
            count_value(first),
            count_value(last),
        ),
        w.end == window_end(
            index_after as int,
            index_before as int,
            count_value(first),
            count_value(last),
            default_page_size as int,
        ),
        w.start <= w.end,
{
    let (start, end) = match (first, last) {
        (Some(f), _) => {
            let reach = index_after.saturating_add(f);
            (index_after, if reach < index_before { reach } else { index_before })
        },
        (None, Some(l)) => {
            let back = index_before.saturating_sub(l);
            (if back > index_after { back } else { index_after }, index_before)
        },
        (None, None) => (
            index_after,
            if default_page_size < index_before { default_page_size } else { index_before },
        ),
    };
    if end < start {
        Window { start, end: start }
    } else {
        Window { start, end }
    }
}

} // verus!
