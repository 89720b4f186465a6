//! The page that is handed back: edges, navigation flags and what else the
//! caller attaches.

use vstd::prelude::*;
use crate::cursor::{identities, optional_identity, CursorType};
use crate::window::{
    count_value, index_after, index_before, lemma_boundaries_in_range,
    lemma_unmatched_boundary_counts_as_absent, lemma_window_in_range, locate, resolve, window_end,
    window_start, Window,
};

verus! {

/// An item of a page together with its cursor.
#[derive(Debug)]
pub struct Edge<T> {
    pub cursor: String,
    pub node: T,
}

/// A page: its edges in the order of the sequence, whether items lie before
/// and behind it, and the fields that the caller attached.
#[derive(Debug)]
pub struct Connection<T, F> {
    pub edges: Vec<Edge<T>>,
    pub additional_fields: F,
    pub has_previous_page: bool,
    pub has_next_page: bool,
}

/// A page as a mathematical value: each edge is the text of its cursor and
/// its item.
pub ghost struct ConnectionView<T, F> {
    pub edges: Seq<(Seq<char>, T)>,
    pub additional_fields: F,
    pub has_previous_page: bool,
    pub has_next_page: bool,
}

impl<T, F> View for Connection<T, F> {
    type V = ConnectionView<T, F>;

    open spec fn view(&self) -> ConnectionView<T, F> {
        ConnectionView {
            edges: Seq::new(
                self.edges@.len(),
                |i: int| (self.edges@[i].cursor@, self.edges@[i].node),
            ),
            additional_fields: self.additional_fields,
            has_previous_page: self.has_previous_page,
            has_next_page: self.has_next_page,
        }
    }
}

/// The edges of the positions `[start, end)`: each item of the range with
/// the token of its identity, in the order of the sequence.
pub open spec fn edges_of<T>(nodes: Seq<T>, tokens: Seq<Seq<char>>, start: int, end: int) -> Seq<
    (Seq<char>, T),
> {
    Seq::new((end - start) as nat, |i: int| (tokens[start + i], nodes[start + i]))
}

/// The tokens of a sequence of identities, in order.
pub open spec fn tokens_of<C: CursorType>(ids: Seq<C::Identity>) -> Seq<Seq<char>> {
    Seq::new(ids.len(), |i: int| C::token_of(ids[i]))
}

/// The page that the arguments select from `nodes`, whose identities are
/// `ids`, position by position.
pub open spec fn page_of<C: CursorType, T, F>(
    nodes: Seq<T>,
    ids: Seq<C::Identity>,
    after: Option<C::Identity>,
    before: Option<C::Identity>,
    first: Option<int>,
    last: Option<int>,
    default_page_size: int,
    additional_fields: F,
) -> ConnectionView<T, F> {
    let ia = index_after(ids, after);
    let ib = index_before(ids, before);
    let start = window_start(ia, ib, first, last);
    let end = window_end(ia, ib, first, last, default_page_size);
    ConnectionView {
        edges: edges_of(nodes, tokens_of::<C>(ids), start, end),
        additional_fields,
        has_previous_page: start > 0,
        has_next_page: end < nodes.len(),
    }
}

/// Builds the page of a window: the items of `[start, end)` become edges,
/// each with the token of its cursor, and the flags say whether the window
/// leaves items out at either side.
pub fn build<C: CursorType, T, F>(
    nodes: Vec<T>,
    ids: &Vec<C>,
    window: Window,
    additional_fields: F,
) -> (c: Connection<T, F>)
    requires
        nodes.len() == ids.len(),
        window.fits(nodes@.len()),
    ensures
        c@ == (ConnectionView {
            edges: edges_of(
                nodes@,
                tokens_of::<C>(identities(ids@)),
                window.start as int,
                window.end as int,
            ),
            additional_fields,
            has_previous_page: window.start > 0,
            has_next_page: window.end < nodes.len(),
        }),
{
    let total = nodes.len();
    let ghost all = nodes@;
    let mut nodes = nodes;
    nodes.truncate(window.end);
    let page = nodes.split_off(window.start);
    let mut edges: Vec<Edge<T>> = Vec::new();
    let mut position: usize = window.start;
    for node in it: page
        invariant
            ids.len() == all.len(),
            window.start <= window.end <= all.len(),
            it.seq() == all.subrange(window.start as int, window.end as int),
            position == window.start + it.index(),
            edges@.len() == it.index(),
            forall|i: int|
                0 <= i < edges@.len() ==> (#[trigger] edges@[i]).cursor@ == C::token_of(
                    ids@[window.start + i].identity(),
                ) && edges@[i].node == all[window.start + i],
    {
        let cursor = ids[position].encode_cursor();
        edges.push(Edge { cursor, node });
        position += 1;
    }
    let c = Connection {
        edges,
        additional_fields,
        has_previous_page: window.start > 0,
        has_next_page: window.end < total,
    };
    proof {
        assert(c@.edges =~= edges_of(
            all,
            tokens_of::<C>(identities(ids@)),
            window.start as int,
            window.end as int,
        ));
    }
    c
}

/// Pages over `nodes`, whose cursors are `ids`, position by position: finds
/// the boundaries that `after` and `before` name, computes the window from
/// them and the counts, and builds the page of that window. Where both
/// counts are given, `first` decides and `last` is not looked at.
pub fn paginate<C: CursorType, T, F>(
    nodes: Vec<T>,
    ids: &Vec<C>,
    after: &Option<C>,
    before: &Option<C>,
    first: Option<usize>,
    last: Option<usize>,
    default_page_size: usize,
    additional_fields: F,
) -> (c: Connection<T, F>)
    requires
        nodes.len() == ids.len(),
    ensures
        c@ == page_of::<C, T, F>(
            nodes@,
            identities(ids@),
            optional_identity(*after),
            optional_identity(*before),
            count_value(first),
            count_value(last),
            default_page_size as int,
            additional_fields,
        ),
{
    let (index_after, index_before) = locate(ids, after, before);
    let window = resolve(index_after, index_before, first, last, default_page_size);
    proof {
        lemma_window_in_range(
            index_after as int,
            index_before as int,
            count_value(first),
            count_value(last),
            default_page_size as int,
            nodes.len() as int,
        );
    }
    build(nodes, ids, window, additional_fields)
}

/// Paging is a function of its arguments: two pages that were built from the
/// same sequence by the same arguments agree in every edge, cursor for
/// cursor and item for item, in both flags and in the attached fields.
pub proof fn lemma_same_arguments_same_page<C: CursorType, T, F>(
    a: Connection<T, F>,
    b: Connection<T, F>,
    nodes: Seq<T>,
    ids: Seq<C::Identity>,
    after: Option<C::Identity>,
    before: Option<C::Identity>,
    first: Option<int>,
    last: Option<int>,
    default_page_size: int,
    additional_fields: F,
)
    requires
        a@ == page_of::<C, T, F>(
            nodes,
            ids,
            after,
            before,
            first,
            last,
            default_page_size,
            additional_fields,
        ),
        b@ == page_of::<C, T, F>(
            nodes,
            ids,
            after,
            before,
            first,
            last,
            default_page_size,
            additional_fields,
        ),
    ensures
        a@ == b@,
        a.edges@.len() == b.edges@.len(),
        forall|i: int|
            0 <= i < a.edges@.len() ==> (#[trigger] a.edges@[i]).cursor@ == b.edges@[i].cursor@
                && a.edges@[i].node == b.edges@[i].node,
        a.has_previous_page == b.has_previous_page,
        a.has_next_page == b.has_next_page,
        a.additional_fields == b.additional_fields,
{
    assert(a@.edges.len() == a.edges@.len());
    assert(b@.edges.len() == b.edges@.len());
    assert forall|i: int| 0 <= i < a.edges@.len() implies (#[trigger] a.edges@[i]).cursor@
        == b.edges@[i].cursor@ && a.edges@[i].node == b.edges@[i].node by {
        assert(a@.edges[i] == b@.edges[i]);
    }
}

/// Over an empty sequence every page is empty and both flags are off,
/// whatever the boundaries and counts are.
pub proof fn lemma_empty_sequence<C: CursorType, T, F>(
    after: Option<C::Identity>,
    before: Option<C::Identity>,
    first: Option<int>,
    last: Option<int>,
    default_page_size: int,
    additional_fields: F,
)
    requires
        first matches Some(f) ==> 0 <= f,
        last matches Some(l) ==> 0 <= l,
        0 <= default_page_size,
    ensures
        page_of::<C, T, F>(
            Seq::empty(),
            Seq::empty(),
            after,
            before,
            first,
            last,
            default_page_size,
            additional_fields,
        ) == (ConnectionView {
            edges: Seq::<(Seq<char>, T)>::empty(),
            additional_fields,
            has_previous_page: false,
            has_next_page: false,
        }),
{
    let page = page_of::<C, T, F>(
        Seq::empty(),
        Seq::empty(),
        after,
        before,
        first,
        last,
        default_page_size,
        additional_fields,
    );
    assert(page.edges =~= Seq::<(Seq<char>, T)>::empty());
}

/// A boundary that names no item of the sequence selects the same page as
/// an absent boundary.
pub proof fn lemma_unmatched_boundary_is_absent<C: CursorType, T, F>(
    nodes: Seq<T>,
    ids: Seq<C::Identity>,
    stranger: C::Identity,
    other: Option<C::Identity>,
    first: Option<int>,
    last: Option<int>,
    default_page_size: int,
    additional_fields: F,
)
    requires
        forall|i: int| 0 <= i < ids.len() ==> ids[i] != stranger,
    ensures
        page_of::<C, T, F>(
            nodes,
            ids,
            Some(stranger),
            other,
            first,
            last,
            default_page_size,
            additional_fields,
        ) == page_of::<C, T, F>(
            nodes,
            ids,
            None,
            other,
            first,
            last,
            default_page_size,
            additional_fields,
        ),
        page_of::<C, T, F>(
            nodes,
            ids,
            other,
            Some(stranger),
            first,
            last,
            default_page_size,
            additional_fields,
        ) == page_of::<C, T, F>(
            nodes,
            ids,
            other,
            None,
            first,
            last,
            default_page_size,
            additional_fields,
        ),
{
    lemma_unmatched_boundary_counts_as_absent(ids, stranger);
}

/// The shape of every page: the window `[start, end)` that it covers lies
/// within the sequence, its edges are the items of the window in order, each
/// with the token of its identity, there is a previous page exactly where
/// the window starts behind position 0, and a next page exactly where it
/// ends before the end of the sequence.
pub proof fn lemma_page_shape<C: CursorType, T, F>(
    nodes: Seq<T>,
    ids: Seq<C::Identity>,
    after: Option<C::Identity>,
    before: Option<C::Identity>,
    first: Option<int>,
    last: Option<int>,
    default_page_size: int,
    additional_fields: F,
)
    requires
        nodes.len() == ids.len(),
        first matches Some(f) ==> 0 <= f,
        last matches Some(l) ==> 0 <= l,
    ensures
        ({
            let page = page_of::<C, T, F>(
                nodes,
                ids,
                after,
                before,
                first,
                last,
                default_page_size,
                additional_fields,
            );
            let ia = index_after(ids, after);
            let ib = index_before(ids, before);
            let start = window_start(ia, ib, first, last);
            let end = window_end(ia, ib, first, last, default_page_size);
            &&& 0 <= start <= end <= nodes.len()
            &&& page.edges.len() == end - start
            &&& forall|i: int|
                0 <= i < end - start ==> #[trigger] page.edges[i] == (
                    C::token_of(ids[start + i]),
                    nodes[start + i],
                )
            &&& page.has_previous_page == (start > 0)
            &&& page.has_next_page == (end < nodes.len())
            &&& page.additional_fields == additional_fields
        }),
{
    lemma_boundaries_in_range(ids, after, before);
    lemma_window_in_range(
        index_after(ids, after),
        index_before(ids, before),
        first,
        last,
        default_page_size,
        ids.len() as int,
    );
}

} // verus!
