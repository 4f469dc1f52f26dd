//! Natural numbers of any size, held as their little-endian base-256 digits.

use vstd::prelude::*;
use crate::table::TableKey;

verus! {

/// `256` raised to the power `n`.
pub open spec fn pow256(n: nat) -> nat
    decreases n,
{
    if n == 0 {
        1
    } else {
        256 * pow256((n - 1) as nat)
    }
}

/// The number that little-endian base-256 digits stand for.
pub open spec fn digits_value(s: Seq<u8>) -> nat
    decreases s.len(),
{
    if s.len() == 0 {
        0
    } else {
        digits_value(s.drop_last()) + (s.last() as nat) * pow256((s.len() - 1) as nat)
    }
}

/// Digits with no zero at the most significant end.
pub open spec fn canonical_digits(s: Seq<u8>) -> bool {
    s.len() == 0 || s.last() != 0
}

pub proof fn lemma_pow256_positive(n: nat)
    ensures
        pow256(n) >= 1,
    decreases n,
{
    if n > 0 {
        lemma_pow256_positive((n - 1) as nat);
    }
}

pub proof fn lemma_pow256_monotone(m: nat, n: nat)
    requires
        m <= n,
    ensures
        1 <= pow256(m) <= pow256(n),
    decreases n,
{
    lemma_pow256_positive(m);
    if m < n {
        lemma_pow256_monotone(m, (n - 1) as nat);
    }
}

/// The digits stand for less than `256` to the power of their count.
pub proof fn lemma_value_below(s: Seq<u8>)
    ensures
        digits_value(s) < pow256(s.len()),
    decreases s.len(),
{
    if s.len() > 0 {
        let n = (s.len() - 1) as nat;
        lemma_value_below(s.drop_last());
        let p = pow256(n);
        let d = s.last() as nat;
        assert(d * p <= 255 * p) by (nonlinear_arith)
            requires
                d <= 255,
        ;
        assert(pow256(s.len()) == 256 * p);
    }
}

/// Canonical digits, some of them, stand for at least `256` to the power of
/// their count less one.
pub proof fn lemma_value_above(s: Seq<u8>)
    requires
        canonical_digits(s),
        s.len() > 0,
    ensures
        digits_value(s) >= pow256((s.len() - 1) as nat),
{
    let p = pow256((s.len() - 1) as nat);
    let d = s.last() as nat;
    assert(d * p >= p) by (nonlinear_arith)
        requires
            d >= 1,
            p >= 0,
    ;
}

/// Of two digit strings of one length that agree above position `i`, the
/// one with the greater digit at `i` stands for the greater number.
pub proof fn lemma_value_greater(s: Seq<u8>, t: Seq<u8>, i: int)
    requires
        s.len() == t.len(),
        0 <= i < s.len(),
        forall|j: int| i < j < s.len() ==> s[j] == t[j],
        s[i] > t[i],
    ensures
        digits_value(s) > digits_value(t),
    decreases s.len(),
{
    let n = (s.len() - 1) as nat;
    let p = pow256(n);
    if i == s.len() - 1 {
        lemma_value_below(t.drop_last());
        let a = s.last() as nat;
        let b = t.last() as nat;
        assert(a * p >= b * p + p) by (nonlinear_arith)
            requires
                a >= b + 1,
                p >= 0,
        ;
    } else {
        assert forall|j: int| i < j < s.drop_last().len() implies s.drop_last()[j]
            == t.drop_last()[j] by {
            assert(s[j] == t[j]);
        }
        lemma_value_greater(s.drop_last(), t.drop_last(), i);
        assert(s.last() == t.last());
    }
}

/// A trailing zero digit does not change the number.
proof fn lemma_value_trailing_zero(s: Seq<u8>)
    requires
        s.len() > 0,
        s.last() == 0,
    ensures
        digits_value(s) == digits_value(s.drop_last()),
{
}

/// A natural number of any size.
#[derive(Debug, PartialEq, Eq, Hash)]
pub struct Natural {
    pub(crate) digits: Vec<u8>,
}

impl View for Natural {
    type V = nat;

    open spec fn view(&self) -> nat {
        digits_value(self.digits())
    }
}

impl Natural {
    /// The digits, little-endian in base 256.
    pub closed spec fn digits(&self) -> Seq<u8> {
        self.digits@
    }

    #[verifier::type_invariant]
    spec fn is_canonical(&self) -> bool {
        canonical_digits(self.digits@)
    }

    pub fn zero() -> (n: Natural)
        ensures
            n@ == 0,
    {
        Natural { digits: Vec::new() }
    }

    /// The number that little-endian base-256 digits stand for.
    pub fn from_le_bytes(bytes: Vec<u8>) -> (n: Natural)
        ensures
            n@ == digits_value(bytes@),
    {
        let mut digits = bytes;
        while digits.len() > 0 && digits[digits.len() - 1] == 0
            invariant
                digits_value(digits@) == digits_value(bytes@),
            decreases digits.len(),
        {
            proof {
                lemma_value_trailing_zero(digits@);
            }
            let _ = digits.pop();
        }
        Natural { digits }
    }

    /// The digits of the number, little-endian in base 256, with no zero at
    /// the most significant end.
    pub fn to_le_bytes(&self) -> (bytes: Vec<u8>)
        ensures
            digits_value(bytes@) == self@,
            canonical_digits(bytes@),
    {
        proof {
            use_type_invariant(self);
        }
        crate::principal::copy_bytes(&self.digits)
    }

    /// How two numbers compare: negative where `self` is less, zero where
    /// they are equal, positive where `self` is greater.
    pub fn compare(&self, other: &Natural) -> (r: i8)
        ensures
            r < 0 <==> self@ < other@,
            r == 0 <==> self@ == other@,
            r > 0 <==> self@ > other@,
    {
        proof {
            use_type_invariant(self);
            use_type_invariant(other);
        }
        let a = &self.digits;
        let b = &other.digits;
        if a.len() > b.len() {
            proof {
                lemma_value_above(a@);
                lemma_value_below(b@);
                lemma_pow256_monotone(b@.len(), (a@.len() - 1) as nat);
            }
            return 1;
        }
        if a.len() < b.len() {
            proof {
                lemma_value_above(b@);
                lemma_value_below(a@);
                lemma_pow256_monotone(a@.len(), (b@.len() - 1) as nat);
            }
            return -1;
        }
        let n = a.len();
        let mut i = n;
        while i > 0
            invariant
                n == a@.len(),
                n == b@.len(),
                a@ == self.digits(),
                b@ == other.digits(),
                i <= n,
                forall|j: int| i <= j < n ==> a@[j] == b@[j],
            decreases i,
        {
            i = i - 1;
            if a[i] > b[i] {
                proof {
                    lemma_value_greater(a@, b@, i as int);
                }
                return 1;
            }
            if a[i] < b[i] {
                proof {
                    lemma_value_greater(b@, a@, i as int);
                }
                return -1;
            }
        }
        proof {
            assert(a@ =~= b@);
        }
        0
    }

    /// Whether `self` is at least `other`.
    pub fn at_least(&self, other: &Natural) -> (b: bool)
        ensures
            b == (self@ >= other@),
    {
        self.compare(other) >= 0
    }
}

impl TableKey for Natural {
    fn same_key(&self, other: &Self) -> (b: bool) {
        self.compare(other) == 0
    }

    fn copy_key(&self) -> (k: Self) {
        proof {
            use_type_invariant(self);
        }
        Natural { digits: crate::principal::copy_bytes(&self.digits) }
    }
}

} // verus!
