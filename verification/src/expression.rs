//! Gate polynomials as data: an expression tree over queried cells,
//! selectors and constants, built once at configuration time and
//! interpreted row by row by the evaluator.

use crate::field::Fp;
use vstd::prelude::*;

verus! {

/// A polynomial over the cells of one row (and of rows at fixed
/// offsets from it), selectors and constants.
pub enum Expr {
    /// A constant field element.
    Constant(Fp),
    /// The value of an advice cell: column index and row offset.
    Advice { col: usize, rot: i32 },
    /// The value of an instance cell: column index and row offset.
    Instance { col: usize, rot: i32 },
    /// The value of a fixed cell: column index and row offset.
    Fixed { col: usize, rot: i32 },
    /// The value of a selector at the current row: 1 when on, 0 when off.
    Selector { sel: usize },
    /// The additive inverse of a polynomial.
    Negated(Box<Expr>),
    /// The sum of two polynomials.
    Sum(Box<Expr>, Box<Expr>),
    /// The product of two polynomials.
    Product(Box<Expr>, Box<Expr>),
}

/// Well-formedness of an expression against declared column and selector
/// counts: every query is in range and every constant is reduced.
pub open spec fn expr_wf(e: Expr, na: int, ni: int, nf: int, ns: int) -> bool
    decreases e,
{
    match e {
        Expr::Constant(f) => f.wf(),
        Expr::Advice { col, rot } => col < na,
        Expr::Instance { col, rot } => col < ni,
        Expr::Fixed { col, rot } => col < nf,
        Expr::Selector { sel } => sel < ns,
        Expr::Negated(a) => expr_wf(*a, na, ni, nf, ns),
        Expr::Sum(a, b) => expr_wf(*a, na, ni, nf, ns) && expr_wf(*b, na, ni, nf, ns),
        Expr::Product(a, b) => expr_wf(*a, na, ni, nf, ns) && expr_wf(*b, na, ni, nf, ns),
    }
}

/// An expression stays well-formed when more columns or selectors are
/// declared after it was built.
pub proof fn lemma_expr_wf_monotone(
    e: Expr,
    na: int,
    ni: int,
    nf: int,
    ns: int,
    na2: int,
    ni2: int,
    nf2: int,
    ns2: int,
)
    requires
        expr_wf(e, na, ni, nf, ns),
        na <= na2,
        ni <= ni2,
        nf <= nf2,
        ns <= ns2,
    ensures
        expr_wf(e, na2, ni2, nf2, ns2),
    decreases e,
{
    match e {
        Expr::Negated(a) => {
            lemma_expr_wf_monotone(*a, na, ni, nf, ns, na2, ni2, nf2, ns2);
        },
        Expr::Sum(a, b) => {
            lemma_expr_wf_monotone(*a, na, ni, nf, ns, na2, ni2, nf2, ns2);
            lemma_expr_wf_monotone(*b, na, ni, nf, ns, na2, ni2, nf2, ns2);
        },
        Expr::Product(a, b) => {
            lemma_expr_wf_monotone(*a, na, ni, nf, ns, na2, ni2, nf2, ns2);
            lemma_expr_wf_monotone(*b, na, ni, nf, ns, na2, ni2, nf2, ns2);
        },
        _ => {},
    }
}

impl Expr {
    /// A constant polynomial.
    pub fn constant(f: Fp) -> (r: Expr)
        ensures
            r == Expr::Constant(f),
    {
        Expr::Constant(f)
    }

    /// The sum `self + other`.
    pub fn plus(self, other: Expr) -> (r: Expr)
        ensures
            r == Expr::Sum(Box::new(self), Box::new(other)),
    {
        Expr::Sum(Box::new(self), Box::new(other))
    }

    /// The difference `self - other`, written as a sum with a negation.
    pub fn minus(self, other: Expr) -> (r: Expr)
        ensures
            r == Expr::Sum(Box::new(self), Box::new(Expr::Negated(Box::new(other)))),
    {
        Expr::Sum(Box::new(self), Box::new(Expr::Negated(Box::new(other))))
    }

    /// The product `self * other`.
    pub fn times(self, other: Expr) -> (r: Expr)
        ensures
            r == Expr::Product(Box::new(self), Box::new(other)),
    {
        Expr::Product(Box::new(self), Box::new(other))
    }
}

} // verus!
