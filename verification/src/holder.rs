//! Token holders: an account identifier or a principal.

use vstd::prelude::*;
use crate::principal::{PrincipalId, bytes_equal, copy_bytes};

verus! {

/// Who holds tokens: an account identifier (its bytes) or a principal.
#[derive(Clone, Debug, PartialEq, Eq, Hash)]
pub enum Holder {
    Account(Vec<u8>),
    Principal(PrincipalId),
}

impl View for Holder {
    /// Whether the holder is a principal, and the bytes that identify it.
    type V = (bool, Seq<u8>);

    open spec fn view(&self) -> (bool, Seq<u8>) {
        match self {
            Holder::Account(bytes) => (false, bytes@),
            Holder::Principal(p) => (true, p@),
        }
    }
}

impl Holder {
    /// Whether two holders are the same one.
    pub fn same_as(&self, other: &Holder) -> (b: bool)
        ensures
            b == (self@ == other@),
    {
        match (self, other) {
            (Holder::Account(a), Holder::Account(b)) => bytes_equal(a, b),
            (Holder::Principal(a), Holder::Principal(b)) => a.same_as(b),
            _ => false,
        }
    }

    pub fn duplicate(&self) -> (h: Holder)
        ensures
            h@ == self@,
    {
        match self {
            Holder::Account(a) => Holder::Account(copy_bytes(a)),
            Holder::Principal(p) => Holder::Principal(p.duplicate()),
        }
    }

    /// The principal of a holder that is one, and nothing for an account.
    pub fn as_principal(&self) -> (p: Option<PrincipalId>)
        ensures
            match p {
                Some(q) => self@.0 && q@ == self@.1,
                None => !self@.0,
            },
    {
        match self {
            Holder::Account(_) => None,
            Holder::Principal(p) => Some(p.duplicate()),
        }
    }
}

} // verus!
