//! A second range check, configured over a caller-supplied advice
//! column: its gate is the selector times
//! `v * (0 - v) * (1 - v) * ... * (R-1 - v)`, whose fold starts at the
//! residue zero.

use crate::checker::{eval, inst_wf, lemma_abs_row_zero, satisfied};
use crate::expression::{expr_wf, Expr};
use crate::field::{f_mul, lemma_f_mul_zero, lemma_wf_range, Fp, MODULUS};
use crate::layout::{Error, Layouter};
use crate::range_check::{lemma_range_chain_unique, lemma_range_chain_zero, range_assigned, range_chain};
use crate::system::{AdviceColumn, ConstraintSystem, Selector};
use vstd::arithmetic::div_mod::lemma_small_mod;
use vstd::prelude::*;

verus! {

/// The shape of the second range check: the advice column under test
/// and its gate's selector.
#[derive(Clone, Copy, PartialEq, Eq, Structural, Debug)]
pub struct RangeCheckConfig {
    pub value: AdviceColumn,
    pub q_range_check: Selector,
}

/// Exactly what configuration adds to a description: one fresh
/// selector and one gate holding the selector times the vanishing
/// product over the residues `0 .. range - 1`, its fold starting at
/// zero.
pub open spec fn example1_configured(
    pre: ConstraintSystem,
    post: ConstraintSystem,
    c: RangeCheckConfig,
    value: AdviceColumn,
    range: u64,
) -> bool {
    &&& c.value == value
    &&& c.q_range_check.index == pre.num_selectors
    &&& post.advice_eq@ == pre.advice_eq@
    &&& post.instance_eq@ == pre.instance_eq@
    &&& post.num_fixed == pre.num_fixed
    &&& post.num_selectors == pre.num_selectors + 1
    &&& post.gates@.len() == pre.gates@.len() + 1
    &&& forall|i: int| 0 <= i < pre.gates@.len() ==> post.gates@[i] == pre.gates@[i]
    &&& post.gates@[pre.gates@.len() as int].name@ == "range check gate"@
    &&& post.gates@[pre.gates@.len() as int].polys@.len() == 1
    &&& (post.gates@[pre.gates@.len() as int].polys@[0] matches Expr::Product(sl, ch) && *sl
        == (Expr::Selector { sel: c.q_range_check.index }) && range_chain(
        *ch,
        value.index,
        range as nat,
        0,
    ))
}

impl RangeCheckConfig {
    /// Declares a gate over the given advice column: a fresh selector
    /// times the vanishing product over `0 .. range - 1`.
    pub fn configure(meta: &mut ConstraintSystem, value: AdviceColumn, range: u64) -> (r: Result<
        RangeCheckConfig,
        Error,
    >)
        requires
            old(meta).wf(),
            old(meta).num_selectors < usize::MAX,
            value.index < old(meta).num_advice(),
            range >= 1,
        ensures
            final(meta).wf(),
            r is Ok,
            example1_configured(*old(meta), *final(meta), r.unwrap(), value, range),
            r.unwrap().value.index < final(meta).num_advice(),
            r.unwrap().q_range_check.index < final(meta).num_selectors,
    {
        let q_range_check = meta.selector();
        let config = RangeCheckConfig { value, q_range_check };

        let mut chain = meta.query_advice(value, 0);
        let ghost meta_snap = *meta;
        let mut i: u64 = 0;
        while i < range
            invariant
                i <= range,
                *meta == meta_snap,
                value.index < meta.num_advice(),
                q_range_check.index < meta.num_selectors,
                range_chain(chain, value.index, i as nat, 0),
                expr_wf(
                    chain,
                    meta.num_advice(),
                    meta.num_instance(),
                    meta.num_fixed as int,
                    meta.num_selectors as int,
                ),
            decreases range - i,
        {
            let fi = Fp::from_u64(i);
            let cst = Expr::constant(fi);
            let v = meta.query_advice(value, 0);
            let factor = cst.minus(v);
            proof {
                let na = meta.num_advice();
                let ni = meta.num_instance();
                let nf = meta.num_fixed as int;
                let ns = meta.num_selectors as int;
                let ev = Expr::Advice { col: value.index, rot: 0i32 };
                assert(expr_wf(ev, na, ni, nf, ns));
                let en = Expr::Negated(Box::new(ev));
                assert(expr_wf(en, na, ni, nf, ns));
                assert(expr_wf(Expr::Constant(fi), na, ni, nf, ns));
                assert(factor == Expr::Sum(Box::new(Expr::Constant(fi)), Box::new(en)));
                assert(expr_wf(factor, na, ni, nf, ns));
                assert(expr_wf(Expr::Product(Box::new(chain), Box::new(factor)), na, ni, nf, ns));
            }
            chain = chain.times(factor);
            i = i + 1;
        }
        let q = meta.query_selector(q_range_check);
        let ghost chain_snap = chain;
        let poly = q.times(chain);
        proof {
            let na = meta.num_advice();
            let ni = meta.num_instance();
            let nf = meta.num_fixed as int;
            let ns = meta.num_selectors as int;
            let es = Expr::Selector { sel: q_range_check.index };
            assert(expr_wf(es, na, ni, nf, ns));
            assert(poly == Expr::Product(Box::new(es), Box::new(chain_snap)));
            assert(expr_wf(poly, na, ni, nf, ns));
        }
        let mut polys: Vec<Expr> = Vec::new();
        polys.push(poly);
        meta.create_gate("range check gate", polys);
        Ok(config)
    }

    /// Places one region and writes the value under test into it, with
    /// its gate's selector on.  Fails with `MissingWitness`, and with
    /// the layouter unfinished, when the value is absent.
    pub fn assign(&self, layout: &mut Layouter, value: Option<Fp>) -> (r: Result<(), Error>)
        requires
            old(layout).wf(),
            !old(layout).in_region,
            old(layout).next_row < old(layout).asg.n,
            self.value.index < old(layout).cs.num_advice(),
            self.q_range_check.index < old(layout).cs.num_selectors,
            old(layout).asg.advice_opt(
                self.value.index as int,
                old(layout).next_row as int,
            ) is None,
            value is Some ==> value.unwrap().wf(),
        ensures
            final(layout).wf(),
            value is Some ==> r == Ok::<(), Error>(()) && range_assigned(
                *old(layout),
                *final(layout),
                self.value,
                self.q_range_check,
                value.unwrap(),
            ),
            value is None ==> r == Err::<(), Error>(Error::MissingWitness),
    {
        layout.begin_region();
        layout.enable_selector(self.q_range_check, 0);
        match layout.assign_advice(self.value, 0, value) {
            Ok(_) => {},
            Err(e) => {
                return Err(e);
            },
        };
        layout.end_region();
        Ok(())
    }
}

/// Range membership for the zero-based fold, completeness direction:
/// a witness whose residue lies below the range bound satisfies the
/// gate at every row of a fresh grid.
pub proof fn lemma_example1_in_range_clean(
    pre: ConstraintSystem,
    cs: ConstraintSystem,
    cfg: RangeCheckConfig,
    value: AdviceColumn,
    l0: Layouter,
    l1: Layouter,
    v: Fp,
    range: u64,
    inst: Vec<Vec<Fp>>,
)
    requires
        pre.num_advice() == 1,
        pre.num_instance() == 0,
        pre.num_fixed == 0,
        pre.num_selectors == 0,
        pre.gates@.len() == 0,
        value.index == 0,
        range >= 1,
        example1_configured(pre, cs, cfg, value, range),
        l0.wf(),
        l0.cs == cs,
        l0.next_row == 0,
        l0.asg.n >= 1,
        l0.asg.copies@.len() == 0,
        forall|s2: int, r2: int|
            0 <= s2 < cs.num_selectors && 0 <= r2 < l0.asg.n ==> !(#[trigger] l0.asg.sel_on(
                s2,
                r2,
            )),
        range_assigned(l0, l1, cfg.value, cfg.q_range_check, v),
        v.wf(),
        v@ < range,
        inst_wf(inst, cs, l1.asg.n as int),
    ensures
        satisfied(cs, l1.asg, inst),
{
    let n = l1.asg.n as int;
    let asg = l1.asg;
    assert(cs.gates@.len() == 1);
    assert(cs.gates@[0].polys@.len() == 1);
    let poly = cs.gates@[0].polys@[0];

    assert forall|row: int| 0 <= row < n implies eval(poly, asg, inst, row) == 0 by {
        match poly {
            Expr::Product(sl, ch) => {
                if row == 0 {
                    assert(asg.sel_on(cfg.q_range_check.index as int, 0));
                    assert(eval(*sl, asg, inst, row) == 1);
                    let m = asg.advice_val(cfg.value.index as int, 0);
                    assert(asg.advice_opt(cfg.value.index as int, 0) == Some(v));
                    assert(m == v@);
                    lemma_wf_range(v);
                    if m == 0 {
                    } else {
                        assert((m + 1 - 1 + 0) % (MODULUS as int) == m) by {
                            lemma_small_mod(m as nat, MODULUS as nat);
                        }
                        assert(exists|j: int|
                            1 <= j <= range as nat && #[trigger] ((j - 1 + 0) % (MODULUS as int))
                                == m) by {
                            assert(1 <= m + 1 <= range as nat && ((m + 1) - 1 + 0) % (
                            MODULUS as int) == m);
                        }
                    }
                    lemma_range_chain_zero(*ch, cfg.value.index, range as nat, 0, asg, inst, row);
                    assert(eval(poly, asg, inst, row) == f_mul(1, 0));
                    lemma_f_mul_zero(1);
                } else {
                    assert(asg.sel_on(cfg.q_range_check.index as int, row) == l0.asg.sel_on(
                        cfg.q_range_check.index as int,
                        row,
                    ));
                    assert(eval(*sl, asg, inst, row) == 0);
                    assert(eval(poly, asg, inst, row) == f_mul(0, eval(*ch, asg, inst, row)));
                    lemma_f_mul_zero(eval(*ch, asg, inst, row));
                }
            },
            _ => {
                assert(false);
            },
        }
    }
    assert(asg.copies@.len() == 0);
    assert(satisfied(cs, asg, inst));
}

/// Idempotent configuration: two configuration passes over the same
/// starting description, for the same column and range bound, yield
/// the same handles and structurally identical descriptions.
pub proof fn lemma_example1_configure_deterministic(
    pre: ConstraintSystem,
    post1: ConstraintSystem,
    c1: RangeCheckConfig,
    post2: ConstraintSystem,
    c2: RangeCheckConfig,
    value: AdviceColumn,
    range: u64,
)
    requires
        range >= 1,
        example1_configured(pre, post1, c1, value, range),
        example1_configured(pre, post2, c2, value, range),
    ensures
        c1 == c2,
        post1.equivalent(post2),
{
    assert forall|i: int|
        0 <= i < post1.gates@.len() implies (#[trigger] post1.gates@[i]).name@
        == post2.gates@[i].name@ && post1.gates@[i].polys@ == post2.gates@[i].polys@ by {
        if i < pre.gates@.len() {
            assert(post1.gates@[i] == pre.gates@[i]);
            assert(post2.gates@[i] == pre.gates@[i]);
        } else {
            let p1 = post1.gates@[i].polys@[0];
            let p2 = post2.gates@[i].polys@[0];
            match (p1, p2) {
                (Expr::Product(s1, ch1), Expr::Product(s2, ch2)) => {
                    lemma_range_chain_unique(*ch1, *ch2, value.index, range as nat, 0);
                    assert(p1 == p2);
                },
                _ => {
                    assert(false);
                },
            }
            assert(post1.gates@[i].polys@ =~= post2.gates@[i].polys@);
        }
    }
}

} // verus!
