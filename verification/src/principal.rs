//! Principals of the Internet Computer, held as their raw bytes.

use vstd::prelude::*;

verus! {

/// Longest byte form that a principal can have.
pub const MAX_PRINCIPAL_LEN: usize = 29;

/// Tag byte of the anonymous principal.
pub const ANONYMOUS_TAG: u8 = 4;

/// A principal, held as the bytes that identify it.
#[derive(Clone, Debug, PartialEq, Eq, Hash)]
pub struct PrincipalId {
    pub bytes: Vec<u8>,
}

impl View for PrincipalId {
    type V = Seq<u8>;

    open spec fn view(&self) -> Seq<u8> {
        self.bytes@
    }
}

/// The bytes of the anonymous principal: its tag alone.
pub open spec fn anonymous_bytes() -> Seq<u8> {
    seq![ANONYMOUS_TAG]
}

impl PrincipalId {
    /// A principal that fits the byte form of the platform.
    pub open spec fn well_formed(&self) -> bool {
        self@.len() <= MAX_PRINCIPAL_LEN
    }

    pub fn from_bytes(bytes: Vec<u8>) -> (p: PrincipalId)
        ensures
            p@ == bytes@,
    {
        PrincipalId { bytes }
    }

    /// The anonymous principal.
    pub fn anonymous() -> (p: PrincipalId)
        ensures
            p@ == anonymous_bytes(),
            p.well_formed(),
    {
        let mut bytes: Vec<u8> = Vec::new();
        bytes.push(ANONYMOUS_TAG);
        proof {
            assert(bytes@ =~= anonymous_bytes());
        }
        PrincipalId { bytes }
    }

    pub fn is_anonymous(&self) -> (b: bool)
        ensures
            b == (self@ == anonymous_bytes()),
    {
        let b = self.bytes.len() == 1 && self.bytes[0] == ANONYMOUS_TAG;
        proof {
            if b {
                assert(self@ =~= anonymous_bytes());
            }
        }
        b
    }

    /// Whether two principals are the same one.
    pub fn same_as(&self, other: &PrincipalId) -> (b: bool)
        ensures
            b == (self@ == other@),
    {
        bytes_equal(&self.bytes, &other.bytes)
    }

    pub fn duplicate(&self) -> (p: PrincipalId)
        ensures
            p@ == self@,
    {
        PrincipalId { bytes: copy_bytes(&self.bytes) }
    }
}

/// Whether two byte strings are equal.
pub fn bytes_equal(a: &Vec<u8>, b: &Vec<u8>) -> (r: bool)
    ensures
        r == (a@ == b@),
{
    if a.len() != b.len() {
        return false;
    }
    let n = a.len();
    let mut i: usize = 0;
    while i < n
        invariant
            n == a.len(),
            n == b.len(),
            i <= n,
            forall|j: int| 0 <= j < i ==> a@[j] == b@[j],
        decreases n - i,
    {
        if a[i] != b[i] {
            return false;
        }
        i = i + 1;
    }
    proof {
        assert(a@ =~= b@);
    }
    true
}

/// A fresh copy of a byte string.
pub fn copy_bytes(a: &Vec<u8>) -> (r: Vec<u8>)
    ensures
        r@ == a@,
{
    let mut r: Vec<u8> = Vec::new();
    let n = a.len();
    let mut i: usize = 0;
    while i < n
        invariant
            n == a.len(),
            i <= n,
            r@ == a@.subrange(0, i as int),
        decreases n - i,
    {
        r.push(a[i]);
        i = i + 1;
        proof {
            assert(r@ =~= a@.subrange(0, i as int));
        }
    }
    proof {
        assert(a@.subrange(0, n as int) =~= a@);
    }
    r
}

} // verus!
