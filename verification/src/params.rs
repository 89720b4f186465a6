//! The paging arguments of a request.

use vstd::prelude::*;

verus! {

/// The paging arguments: two optional boundary cursors and two optional
/// counts.
#[derive(Debug)]
pub struct Params {
    pub after: Option<String>,
    pub before: Option<String>,
    pub first: Option<i32>,
    pub last: Option<i32>,
}

impl Params {
    /// The arguments that paging accepts: no count is negative, and at most
    /// one of the two counts is given.
    pub open spec fn well_formed(&self) -> bool {
        &&& self.first matches Some(f) ==> f >= 0
        &&& self.last matches Some(l) ==> l >= 0
        &&& !(self.first is Some && self.last is Some)
    }

    /// The count `first` as a mathematical integer.
    pub open spec fn first_count(&self) -> Option<int> {
        match self.first {
            Some(f) => Some(f as int),
            None => None,
        }
    }

    /// The count `last` as a mathematical integer.
    pub open spec fn last_count(&self) -> Option<int> {
        match self.last {
            Some(l) => Some(l as int),
            None => None,
        }
    }

    pub fn new(
        after: Option<String>,
        before: Option<String>,
        first: Option<i32>,
        last: Option<i32>,
    ) -> (p: Self)
        ensures
            p.after == after,
            p.before == before,
            p.first == first,
            p.last == last,
    {
        Self { after, before, first, last }
    }

    /// Tells whether paging accepts these arguments.
    pub fn is_well_formed(&self) -> (ok: bool)
        ensures
            ok == self.well_formed(),
    {
        let first_ok = match self.first {
            Some(f) => f >= 0,
            None => true,
        };
        let last_ok = match self.last {
            Some(l) => l >= 0,
            None => true,
        };
        first_ok && last_ok && !(self.first.is_some() && self.last.is_some())
    }
}

/// A count that is not negative, as a `usize`.
pub fn count_of(count: Option<i32>) -> (n: Option<usize>)
    requires
        count matches Some(c) ==> c >= 0,
    ensures
        match count {
            Some(c) => n == Some(c as usize),
            None => n is None,
        },
{
    match count {
        Some(c) => Some(c as usize),
        None => None,
    }
}

} // verus!
