//! What a kind of cursor has to offer to be paged over.

use vstd::prelude::*;

verus! {

/// A cursor: the identity of an item together with its form on the wire.
///
/// `identity` is the mathematical value that two cursors are compared by,
/// `token_of` the text that stands for an identity, and `identity_of` the
/// identity that a text stands for, if it stands for any.
pub trait CursorType: Sized {
    /// What a failed decoding reports.
    type Error;

    /// The mathematical value of an identity.
    type Identity;

    spec fn identity(&self) -> Self::Identity;

    spec fn token_of(id: Self::Identity) -> Seq<char>;

    spec fn identity_of(token: Seq<char>) -> Option<Self::Identity>;

    /// Reads a cursor back from its token. It succeeds exactly on the tokens
    /// that stand for an identity.
    fn decode_cursor(s: &str) -> (r: Result<Self, Self::Error>)
        ensures
            match r {
                Ok(c) => Self::identity_of(s@) == Some(c.identity()),
                Err(_) => Self::identity_of(s@) is None,
            },
    ;

    /// Writes the cursor as its token. Decoding that token gives the same
    /// identity back.
    fn encode_cursor(&self) -> (token: String)
        ensures
            token@ == Self::token_of(self.identity()),
            Self::identity_of(token@) == Some(self.identity()),
    ;

    /// Whether two cursors name the same identity.
    fn same_identity(&self, other: &Self) -> (b: bool)
        ensures
            b == (self.identity() == other.identity()),
    ;
}

/// Encodes a cursor and decodes the token again. For every kind of cursor
/// the decoding succeeds and gives a cursor of the same identity.
pub fn round_trip<C: CursorType>(cursor: &C) -> (r: Result<C, C::Error>)
    ensures
        r matches Ok(c) && c.identity() == cursor.identity(),
{
    let token = cursor.encode_cursor();
    C::decode_cursor(token.as_str())
}

/// The identities of a sequence of cursors, in order.
pub open spec fn identities<C: CursorType>(cursors: Seq<C>) -> Seq<C::Identity> {
    Seq::new(cursors.len(), |i: int| cursors[i].identity())
}

/// The identity of an optional cursor.
pub open spec fn optional_identity<C: CursorType>(cursor: Option<C>) -> Option<C::Identity> {
    match cursor {
        Some(c) => Some(c.identity()),
        None => None,
    }
}

} // verus!
