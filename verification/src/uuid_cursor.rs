//! Paging over items that a 128-bit identifier names. The cursor of an item
//! is the canonical text of its identifier.

use vstd::prelude::*;
use vstd::arithmetic::power::pow;
use crate::connection::{page_of, paginate, Connection};
use crate::cursor::{identities, CursorType};
use crate::params::{count_of, Params};

verus! {

/// `uuid::Error`, what the parser says of a text that it rejects. It is
/// carried through and never looked into.
#[verifier::external_type_specification]
#[verifier::external_body]
pub struct ExUuidError(uuid::Error);

/// Why a token is no cursor.
#[derive(Debug)]
pub enum UuidCursorError {
    Invalid,
    /// The token is not the text of an identifier; the parser's own error
    /// is inside.
    DecodeError(uuid::Error),
}

impl UuidCursorError {
    /// The message shown to the client, the same for every variant.
    pub fn to_string(&self) -> (s: String)
        ensures
            s@ == "Invalid cursor"@,
    {
        "Invalid cursor".to_owned()
    }
}

/// An item that a 128-bit identifier names. Nothing is asked of `get_id`:
/// what paging promises is stated over the identifiers that it returned.
pub trait Identifiable {
    fn get_id(&self) -> u128;
}

/// The sixteen hexadecimal digits, in lower case.
pub open spec fn hex_digits() -> Seq<char> {
    seq!['0', '1', '2', '3', '4', '5', '6', '7', '8', '9', 'a', 'b', 'c', 'd', 'e', 'f']
}

/// The hexadecimal digit of `id` at place `k`, where place 0 is the most
/// significant of the 32 and place 31 the least.
pub open spec fn hex_place(id: u128, k: int) -> int {
    (id as int / pow(16, (31 - k) as nat)) % 16
}

/// How many hyphens the canonical text holds before position `i`.
pub open spec fn hyphens_before(i: int) -> int {
    if i < 8 {
        0
    } else if i < 13 {
        1
    } else if i < 18 {
        2
    } else if i < 23 {
        3
    } else {
        4
    }
}

/// The canonical text of an identifier: its 32 hexadecimal digits in lower
/// case, most significant first, in groups of 8, 4, 4, 4 and 12 with a
/// hyphen between two groups.
pub open spec fn canonical_text(id: u128) -> Seq<char> {
    Seq::new(
        36,
        |i: int|
            if i == 8 || i == 13 || i == 18 || i == 23 {
                '-'
            } else {
                hex_digits()[hex_place(id, i - hyphens_before(i))]
            },
    )
}

/// The identifier that `Uuid::parse_str` reads from a text, or `None` where
/// it rejects the text.
pub uninterp spec fn parsed_uuid(token: Seq<char>) -> Option<u128>;

/// Calls `Uuid::parse_str` and hands the identifier out as the 128-bit
/// number that `Uuid::as_u128` gives. Believed: the outcome is a function of
/// the text alone, named `parsed_uuid`.
#[verifier::external_body]
fn parse_uuid(token: &str) -> (r: Result<u128, uuid::Error>)
    ensures
        match r {
            Ok(id) => parsed_uuid(token@) == Some(id),
            Err(_) => parsed_uuid(token@) is None,
        },
{
    match uuid::Uuid::parse_str(token) {
        Ok(id) => Ok(id.as_u128()),
        Err(e) => Err(e),
    }
}

/// Calls `to_string` on the `Uuid` that `Uuid::from_u128` makes of `id`.
/// Believed: the text is the lower-case hyphenated form, and
/// `Uuid::parse_str` reads the same identifier back from it.
#[verifier::external_body]
fn format_uuid(id: u128) -> (token: String)
    ensures
        token@ == canonical_text(id),
        parsed_uuid(token@) == Some(id),
{
    uuid::Uuid::from_u128(id).to_string()
}

/// The cursor of an item that a 128-bit identifier names.
#[derive(Debug)]
pub struct UuidCursor(pub u128);

impl UuidCursor {
    pub fn new(uid: u128) -> (c: Self)
        ensures
            c.0 == uid,
    {
        Self(uid)
    }

    /// The canonical text of the identifier. Decoding it gives the
    /// identifier back.
    pub fn encode(&self) -> (token: String)
        ensures
            token@ == canonical_text(self.0),
            parsed_uuid(token@) == Some(self.0),
    {
        format_uuid(self.0)
    }

    /// Reads an identifier from a token. It fails, with the parser's error,
    /// exactly on the tokens that the parser rejects.
    pub fn decode(s: &str) -> (r: Result<Self, UuidCursorError>)
        ensures
            match r {
                Ok(c) => parsed_uuid(s@) == Some(c.0),
                Err(e) => parsed_uuid(s@) is None && e is DecodeError,
            },
    {
        match parse_uuid(s) {
            Ok(id) => Ok(Self::new(id)),
            Err(e) => Err(UuidCursorError::DecodeError(e)),
        }
    }
}

impl CursorType for UuidCursor {
    type Error = UuidCursorError;

    type Identity = u128;

    open spec fn identity(&self) -> u128 {
        self.0
    }

    open spec fn token_of(id: u128) -> Seq<char> {
        canonical_text(id)
    }

    open spec fn identity_of(token: Seq<char>) -> Option<u128> {
        parsed_uuid(token)
    }

    fn decode_cursor(s: &str) -> (r: Result<Self, UuidCursorError>)
        ensures
            r matches Err(e) ==> e is DecodeError,
    {
        UuidCursor::decode(s)
    }

    fn encode_cursor(&self) -> (token: String) {
        self.encode()
    }

    fn same_identity(&self, other: &Self) -> (b: bool) {
        self.0 == other.0
    }
}

/// What a page carries beside its edges and flags.
#[derive(Debug)]
pub struct ConnectionFields {
    /// The length of the whole sequence.
    pub total_count: usize,
}

/// `ids` holds, place by place, an identifier that `get_id` can return for
/// the item at that place.
pub open spec fn has_identities<T: Identifiable>(items: Seq<T>, ids: Seq<u128>) -> bool {
    &&& ids.len() == items.len()
    &&& forall|i: int|
        0 <= i < items.len() ==> call_ensures(T::get_id, (&items[i],), #[trigger] ids[i])
}

/// The identifier that a boundary token names: none where the token is
/// absent, and none where it is no cursor.
pub open spec fn boundary(token: Option<String>) -> Option<u128> {
    match token {
        Some(s) => parsed_uuid(s@),
        None => None,
    }
}

/// Whether a boundary token, where one is given, is a cursor.
pub open spec fn decodes(token: Option<String>) -> bool {
    token matches Some(s) ==> parsed_uuid(s@) is Some
}

/// Decodes a boundary token where one is given.
pub fn decode_boundary(token: &Option<String>) -> (r: Result<Option<UuidCursor>, UuidCursorError>)
    ensures
        match r {
            Ok(c) => decodes(*token) && (match c {
                Some(c) => boundary(*token) == Some(c.0),
                None => *token is None,
            }),
            Err(e) => !decodes(*token) && e is DecodeError,
        },
{
    match token {
        Some(s) => match UuidCursor::decode(s.as_str()) {
            Ok(c) => Ok(Some(c)),
            Err(e) => Err(e),
        },
        None => Ok(None),
    }
}

/// The cursors of the items, in order: one call of `get_id` for each item.
pub fn cursors_of<T: Identifiable>(items: &Vec<T>) -> (ids: Vec<UuidCursor>)
    ensures
        ids.len() == items.len(),
        has_identities(items@, identities(ids@)),
{
    let mut ids: Vec<UuidCursor> = Vec::new();
    let mut i: usize = 0;
    while i < items.len()
        invariant
            i <= items.len(),
            ids.len() == i,
            forall|j: int|
                0 <= j < i ==> call_ensures(T::get_id, (&items@[j],), (#[trigger] ids@[j]).0),
        decreases items.len() - i,
    {
        ids.push(UuidCursor::new(items[i].get_id()));
        i += 1;
    }
    proof {
        assert forall|j: int| 0 <= j < items@.len() implies call_ensures(
            T::get_id,
            (&items@[j],),
            #[trigger] identities(ids@)[j],
        ) by {
            assert(identities(ids@)[j] == ids@[j].0);
        }
    }
    ids
}

/// Pages over `items` by the arguments `p`.
///
/// It fails exactly where a boundary token is given that is no cursor, and
/// then with the parser's error. Otherwise it asks each item for its
/// identifier once, and the page holds the items of the window that the
/// arguments select, each with the canonical text of its identifier; a
/// boundary that names no item counts as absent. The total count is the
/// length of `items` whatever the window is.
pub fn query<T: Identifiable>(items: Vec<T>, p: Params, default_page_size: usize) -> (r: Result<
    Connection<T, ConnectionFields>,
    UuidCursorError,
>)
    requires
        p.well_formed(),
    ensures
        match r {
            Ok(c) => decodes(p.after) && decodes(p.before) && c.additional_fields.total_count
                == items.len() && exists|ids: Seq<u128>| #[trigger]
                has_identities(items@, ids) && c@ == page_of::<UuidCursor, T, ConnectionFields>(
                    items@,
                    ids,
                    boundary(p.after),
                    boundary(p.before),
                    p.first_count(),
                    p.last_count(),
                    default_page_size as int,
                    (ConnectionFields { total_count: items.len() }),
                ),
            Err(e) => !(decodes(p.after) && decodes(p.before)) && e is DecodeError,
        },
{
    let before = match decode_boundary(&p.before) {
        Ok(c) => c,
        Err(e) => {
            return Err(e);
        },
    };
    let after = match decode_boundary(&p.after) {
        Ok(c) => c,
        Err(e) => {
            return Err(e);
        },
    };
    let ids = cursors_of(&items);
    let fields = ConnectionFields { total_count: items.len() };
    Ok(
        paginate(
            items,
            &ids,
            &after,
            &before,
            count_of(p.first),
            count_of(p.last),
            default_page_size,
            fields,
        ),
    )
}

} // verus!
