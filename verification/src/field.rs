//! The finite field that all circuit values live in.
//!
//! Gates and assignments compute in the prime field of order
//! 2^61 - 1 (a Mersenne prime).  An element is kept as its least
//! non-negative residue; every operation returns a reduced element.

use vstd::arithmetic::div_mod::{
    lemma_mod_add_multiples_vanish, lemma_mod_bound, lemma_small_mod,
};
use vstd::prelude::*;

verus! {

/// The order of the field: the Mersenne prime 2^61 - 1.
pub const MODULUS: u64 = 2305843009213693951;

/// Addition in the field, on mathematical residues.
pub open spec fn f_add(a: int, b: int) -> int {
    (a + b) % (MODULUS as int)
}

/// Subtraction in the field, on mathematical residues.
pub open spec fn f_sub(a: int, b: int) -> int {
    (a - b) % (MODULUS as int)
}

/// Negation in the field, on mathematical residues.
pub open spec fn f_neg(a: int) -> int {
    (0 - a) % (MODULUS as int)
}

/// Multiplication in the field, on mathematical residues.
pub open spec fn f_mul(a: int, b: int) -> int {
    (a * b) % (MODULUS as int)
}

/// Two elements with the same residue are the same element.
pub proof fn lemma_eq_from_view(a: Fp, b: Fp)
    requires
        a@ == b@,
    ensures
        a == b,
{
}

/// A reduced element's residue lies in `[0, MODULUS)`.
pub proof fn lemma_wf_range(x: Fp)
    requires
        x.wf(),
    ensures
        0 <= x@ < MODULUS as int,
{
}

/// A residue and its negation sum to zero in the field.
pub proof fn lemma_f_add_neg(x: int)
    requires
        0 <= x < MODULUS as int,
    ensures
        f_add(x, f_neg(x)) == 0,
{
    let m = MODULUS as int;
    if x == 0 {
        lemma_small_mod(0nat, m as nat);
    } else {
        lemma_mod_add_multiples_vanish(0 - x, m);
        lemma_small_mod((m - x) as nat, m as nat);
        lemma_mod_add_multiples_vanish(0, m);
        lemma_small_mod(0nat, m as nat);
    }
}

/// One is neutral for a field product of a residue.
pub proof fn lemma_f_mul_one(x: int)
    requires
        0 <= x < MODULUS as int,
    ensures
        f_mul(1, x) == x,
        f_mul(x, 1) == x,
{
    lemma_small_mod(x as nat, MODULUS as nat);
}

/// The difference `a - b`, formed as `a + (-b)`, vanishes in the field
/// exactly when the two residues are equal.
pub proof fn lemma_f_diff_zero_iff(a: int, b: int)
    requires
        0 <= a < MODULUS as int,
        0 <= b < MODULUS as int,
    ensures
        f_add(a, f_neg(b)) == 0 <==> a == b,
{
    let m = MODULUS as int;
    if b == 0 {
        lemma_small_mod(0nat, m as nat);
        lemma_small_mod(a as nat, m as nat);
    } else {
        lemma_mod_add_multiples_vanish(0 - b, m);
        lemma_small_mod((m - b) as nat, m as nat);
        assert(f_neg(b) == m - b);
        lemma_mod_add_multiples_vanish(a - b, m);
        assert(f_add(a, f_neg(b)) == (a - b) % m);
        if a >= b {
            lemma_small_mod((a - b) as nat, m as nat);
        } else {
            lemma_small_mod((a - b + m) as nat, m as nat);
        }
    }
}

/// Zero annihilates a field product.
pub proof fn lemma_f_mul_zero(x: int)
    ensures
        f_mul(0, x) == 0,
        f_mul(x, 0) == 0,
{
    lemma_small_mod(0nat, MODULUS as nat);
}

/// An element of the prime field, stored as its least non-negative
/// residue.  `Fp@` is that residue as a mathematical integer.
#[derive(Clone, Copy, PartialEq, Eq, Structural, Debug)]
pub struct Fp {
    v: u64,
}

impl View for Fp {
    type V = int;

    closed spec fn view(&self) -> int {
        self.v as int
    }
}

/// For `x` in `[0, 2*MODULUS)`, reduction modulo `MODULUS` is a single
/// conditional subtraction.
proof fn lemma_reduce_once(x: int)
    requires
        0 <= x < 2 * (MODULUS as int),
    ensures
        x % (MODULUS as int) == if x >= MODULUS as int {
            x - MODULUS as int
        } else {
            x
        },
{
    let m = MODULUS as int;
    if x >= m {
        lemma_mod_add_multiples_vanish(x - m, m);
        lemma_small_mod((x - m) as nat, m as nat);
    } else {
        lemma_small_mod(x as nat, m as nat);
    }
}

impl Fp {
    /// A reduced element: the representative is below the modulus.
    pub closed spec fn wf(self) -> bool {
        self.v < MODULUS
    }

    /// The element representing `x` (reduced modulo the field order).
    pub fn from_u64(x: u64) -> (r: Fp)
        ensures
            r.wf(),
            r@ == (x as int) % (MODULUS as int),
    {
        Fp { v: x % MODULUS }
    }

    /// The additive identity.
    pub fn zero() -> (r: Fp)
        ensures
            r.wf(),
            r@ == 0,
    {
        Fp { v: 0 }
    }

    /// The multiplicative identity.
    pub fn one() -> (r: Fp)
        ensures
            r.wf(),
            r@ == 1,
    {
        Fp { v: 1 }
    }

    /// Whether two elements are the same residue.
    pub fn eq_value(&self, other: &Fp) -> (r: bool)
        requires
            self.wf(),
            other.wf(),
        ensures
            r <==> self@ == other@,
    {
        self.v == other.v
    }

    /// Whether this element is the additive identity.
    pub fn is_zero(&self) -> (r: bool)
        requires
            self.wf(),
        ensures
            r <==> self@ == 0,
    {
        self.v == 0
    }

    /// Field addition.
    pub fn add(self, other: Fp) -> (r: Fp)
        requires
            self.wf(),
            other.wf(),
        ensures
            r.wf(),
            r@ == f_add(self@, other@),
    {
        let s: u64 = self.v + other.v;
        proof {
            lemma_reduce_once(s as int);
        }
        if s >= MODULUS {
            Fp { v: s - MODULUS }
        } else {
            Fp { v: s }
        }
    }

    /// Field subtraction.
    pub fn sub(self, other: Fp) -> (r: Fp)
        requires
            self.wf(),
            other.wf(),
        ensures
            r.wf(),
            r@ == f_sub(self@, other@),
    {
        let t: u64 = self.v + (MODULUS - other.v);
        proof {
            let m = MODULUS as int;
            lemma_mod_add_multiples_vanish(self@ - other@, m);
            lemma_reduce_once(t as int);
        }
        if t >= MODULUS {
            Fp { v: t - MODULUS }
        } else {
            Fp { v: t }
        }
    }

    /// Field negation.
    pub fn neg(self) -> (r: Fp)
        requires
            self.wf(),
        ensures
            r.wf(),
            r@ == f_neg(self@),
    {
        if self.v == 0 {
            proof {
                lemma_small_mod(0nat, MODULUS as nat);
            }
            Fp { v: 0 }
        } else {
            proof {
                lemma_mod_add_multiples_vanish(0 - self@, MODULUS as int);
                lemma_small_mod((MODULUS as int - self@) as nat, MODULUS as nat);
            }
            Fp { v: MODULUS - self.v }
        }
    }

    /// Field multiplication.
    pub fn mul(self, other: Fp) -> (r: Fp)
        requires
            self.wf(),
            other.wf(),
        ensures
            r.wf(),
            r@ == f_mul(self@, other@),
    {
        proof {
            let a = self.v as int;
            let b = other.v as int;
            assert(a * b <= u128::MAX as int) by (nonlinear_arith)
                requires
                    0 <= a < MODULUS as int,
                    0 <= b < MODULUS as int,
            ;
        }
        let prod: u128 = (self.v as u128) * (other.v as u128);
        let rem: u128 = prod % (MODULUS as u128);
        proof {
            lemma_mod_bound(prod as int, MODULUS as int);
        }
        Fp { v: rem as u64 }
    }
}

} // verus!
