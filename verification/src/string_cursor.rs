//! Paging over items that a free-form string names. The cursor of an item
//! is that string itself, letter for letter.

use vstd::prelude::*;
use crate::connection::{page_of, paginate, Connection};
use crate::cursor::{identities, CursorType};
use crate::params::{count_of, Params};

verus! {

/// Why a token is no cursor. Every string is one, so no function of this
/// module returns it.
#[derive(Debug)]
pub enum StringCursorError {
    Invalid,
}

impl StringCursorError {
    /// The message shown to the client.
    pub fn to_string(&self) -> (s: String)
        ensures
            s@ == "Invalid cursor"@,
    {
        "Invalid cursor".to_owned()
    }
}

/// An item that a string names. Nothing is asked of `get_id`: what paging
/// promises is stated over the strings that it returned.
pub trait Identifiable {
    fn get_id(&self) -> String;
}

/// The cursor of an item that a string names.
#[derive(Debug)]
pub struct StringCursor(pub String);

impl StringCursor {
    pub fn new(uid: String) -> (c: Self)
        ensures
            c.0 == uid,
    {
        Self(uid)
    }

    /// The identity itself, unchanged.
    pub fn encode(&self) -> (token: String)
        ensures
            token@ == self.0@,
    {
        self.0.clone()
    }

    /// The token itself, unchanged, as an identity. It never fails.
    pub fn decode(s: &str) -> (r: Result<Self, StringCursorError>)
        ensures
            r matches Ok(c) && c.0@ == s@,
    {
        Ok(Self::new(s.to_owned()))
    }
}

impl CursorType for StringCursor {
    type Error = StringCursorError;

    type Identity = Seq<char>;

    open spec fn identity(&self) -> Seq<char> {
        self.0@
    }

    open spec fn token_of(id: Seq<char>) -> Seq<char> {
        id
    }

    open spec fn identity_of(token: Seq<char>) -> Option<Seq<char>> {
        Some(token)
    }

    fn decode_cursor(s: &str) -> (r: Result<Self, StringCursorError>)
        ensures
            r is Ok,
    {
        StringCursor::decode(s)
    }

    fn encode_cursor(&self) -> (token: String) {
        self.encode()
    }

    fn same_identity(&self, other: &Self) -> (b: bool) {
        self.0 == other.0
    }
}

/// Every string is the token of itself: decoding the token of an identity
/// gives that identity back.
pub proof fn lemma_round_trip(id: Seq<char>)
    ensures
        StringCursor::identity_of(StringCursor::token_of(id)) == Some(id),
{
}

/// What a page carries beside its edges and flags.
#[derive(Debug)]
pub struct StringConnectionFields {
    /// The length of the whole sequence.
    pub total_count: usize,
}

/// `id` is the text of a string that `get_id` can return for `item`.
pub open spec fn identifies<T: Identifiable>(item: T, id: Seq<char>) -> bool {
    exists|s: String| s@ == id && #[trigger] call_ensures(T::get_id, (&item,), s)
}

/// `ids` holds, place by place, an identity of the item at that place.
pub open spec fn has_identities<T: Identifiable>(items: Seq<T>, ids: Seq<Seq<char>>) -> bool {
    &&& ids.len() == items.len()
    &&& forall|i: int| 0 <= i < items.len() ==> identifies(items[i], #[trigger] ids[i])
}

/// The identity that a boundary token names, where one is given.
pub open spec fn boundary(token: Option<String>) -> Option<Seq<char>> {
    match token {
        Some(s) => Some(s@),
        None => None,
    }
}

/// Decodes a boundary token where one is given.
pub fn decode_boundary(token: &Option<String>) -> (r: Result<
    Option<StringCursor>,
    StringCursorError,
>)
    ensures
        r matches Ok(c) && (match c {
            Some(c) => boundary(*token) == Some(c.0@),
            None => *token is None,
        }),
{
    match token {
        Some(s) => match StringCursor::decode(s.as_str()) {
            Ok(c) => Ok(Some(c)),
            Err(e) => Err(e),
        },
        None => Ok(None),
    }
}

/// The cursors of the items, in order: one call of `get_id` for each item.
pub fn cursors_of<T: Identifiable>(items: &Vec<T>) -> (ids: Vec<StringCursor>)
    ensures
        ids.len() == items.len(),
        has_identities(items@, identities(ids@)),
{
    let mut ids: Vec<StringCursor> = Vec::new();
    let mut i: usize = 0;
    while i < items.len()
        invariant
            i <= items.len(),
            ids.len() == i,
            forall|j: int|
                0 <= j < i ==> call_ensures(T::get_id, (&items@[j],), (#[trigger] ids@[j]).0),
        decreases items.len() - i,
    {
        ids.push(StringCursor::new(items[i].get_id()));
        i += 1;
    }
    proof {
        assert forall|j: int| 0 <= j < items@.len() implies identifies(
            items@[j],
            #[trigger] identities(ids@)[j],
        ) by {
            assert(call_ensures(T::get_id, (&items@[j],), ids@[j].0));
        }
    }
    ids
}

/// Pages over `items` by the arguments `p`.
///
/// It always succeeds. It asks each item for its identity once, and the page
/// holds the items of the window that the arguments select, each with its
/// identity as the cursor; a boundary that names no item counts as absent.
/// The total count is the length of `items` whatever the window is.
pub fn query<T: Identifiable>(items: Vec<T>, p: Params, default_page_size: usize) -> (r: Result<
    Connection<T, StringConnectionFields>,
    StringCursorError,
>)
    requires
        p.well_formed(),
    ensures
        r matches Ok(c) && c.additional_fields.total_count == items.len() && exists|
            ids: Seq<Seq<char>>,
        | #[trigger]
            has_identities(items@, ids) && c@ == page_of::<StringCursor, T, StringConnectionFields>(
                items@,
                ids,
                boundary(p.after),
                boundary(p.before),
                p.first_count(),
                p.last_count(),
                default_page_size as int,
                (StringConnectionFields { total_count: items.len() }),
            ),
{
    let before = match decode_boundary(&p.before) {
        Ok(c) => c,
        Err(e) => {
            return Err(e);
        },
    };
    let after = match decode_boundary(&p.after) {
        Ok(c) => c,
        Err(e) => {
            return Err(e);
        },
    };
    let ids = cursors_of(&items);
    let fields = StringConnectionFields { total_count: items.len() };
    Ok(
        paginate(
            items,
            &ids,
            &after,
            &before,
            count_of(p.first),
            count_of(p.last),
            default_page_size,
            fields,
        ),
    )
}

} // verus!
