//! The range-check circuit: one advice cell `v` under a gate holding
//! `s * v * (1 - v) * (2 - v) * ... * (R-1 - v)`, which vanishes
//! exactly when `v` is one of the residues `0 .. R-1`.  The polynomial
//! degree grows with `R`, so the technique suits small ranges only.

use crate::checker::{eval, inst_wf, lemma_abs_row_zero, satisfied};
use crate::expression::{expr_wf, Expr};
use crate::field::{f_add, f_mul, f_neg, lemma_f_add_neg, lemma_f_mul_zero, Fp, MODULUS};
use crate::layout::{Assignment, Error, Layouter, PlacedRegion};
use crate::system::{AdviceColumn, ConstraintSystem, Selector};
use vstd::arithmetic::div_mod::lemma_small_mod;
use vstd::prelude::*;

verus! {

/// The product `v * (s - v) * (s+1 - v) * ... * (s+k-1 - v)` as an
/// expression tree over advice column `col`, built by `k` fold steps
/// whose constants start at `start`: step `j` multiplies by
/// `(j - 1 + start) - v`.
pub open spec fn range_chain(e: Expr, col: usize, k: nat, start: int) -> bool
    decreases k,
{
    if k == 0 {
        e == (Expr::Advice { col, rot: 0 })
    } else {
        e matches Expr::Product(l, r) && range_chain(*l, col, (k - 1) as nat, start) && (*r
            matches Expr::Sum(cst, neg) && (*cst matches Expr::Constant(f) && f.wf() && f@ == (k
            - 1 + start) % (MODULUS as int)) && (*neg matches Expr::Negated(a) && *a
            == (Expr::Advice { col, rot: 0 })))
    }
}

/// If the advice cell at `row` carries zero, or the residue of one of
/// the chain's constants, the chain evaluates to zero there.
pub proof fn lemma_range_chain_zero(
    e: Expr,
    col: usize,
    k: nat,
    start: int,
    asg: Assignment,
    inst: Vec<Vec<Fp>>,
    row: int,
)
    requires
        range_chain(e, col, k, start),
        0 <= row < asg.n,
        asg.n >= 1,
        asg.advice_val(col as int, row) == 0 || exists|j: int|
            1 <= j <= k && #[trigger] ((j - 1 + start) % (MODULUS as int)) == asg.advice_val(
                col as int,
                row,
            ),
    ensures
        eval(e, asg, inst, row) == 0,
    decreases k,
{
    lemma_abs_row_zero(row, asg.n as int);
    let m = asg.advice_val(col as int, row);
    if k == 0 {
        assert(eval(e, asg, inst, row) == m);
    } else {
        match e {
            Expr::Product(l, r) => {
                let factor = eval(*r, asg, inst, row);
                let head = eval(*l, asg, inst, row);
                assert(eval(e, asg, inst, row) == f_mul(head, factor));
                if m == 0 || exists|j: int|
                    1 <= j <= k - 1 && #[trigger] ((j - 1 + start) % (MODULUS as int)) == m {
                    lemma_range_chain_zero(*l, col, (k - 1) as nat, start, asg, inst, row);
                    lemma_f_mul_zero(factor);
                } else {
                    let j = choose|j: int|
                        1 <= j <= k && #[trigger] ((j - 1 + start) % (MODULUS as int)) == m;
                    assert(j == k);
                    match *r {
                        Expr::Sum(cst, neg) => {
                            match *cst {
                                Expr::Constant(f) => {
                                    assert(eval(*cst, asg, inst, row) == f@);
                                    assert(f@ == m);
                                },
                                _ => {
                                    assert(false);
                                },
                            }
                            match *neg {
                                Expr::Negated(a) => {
                                    assert(eval(*a, asg, inst, row) == m);
                                    assert(eval(*neg, asg, inst, row) == f_neg(m));
                                },
                                _ => {
                                    assert(false);
                                },
                            }
                            assert(factor == f_add(m, f_neg(m)));
                            assert(0 <= m < MODULUS as int) by {
                                let mm = (k - 1 + start) % (MODULUS as int);
                                vstd::arithmetic::div_mod::lemma_mod_bound(
                                    k - 1 + start,
                                    MODULUS as int,
                                );
                            }
                            lemma_f_add_neg(m);
                            lemma_f_mul_zero(head);
                        },
                        _ => {
                            assert(false);
                        },
                    }
                }
            },
            _ => {
                assert(false);
            },
        }
    }
}

/// The chain's shape determines it: two chains over the same column
/// with the same length and starting constant are the same expression.
pub proof fn lemma_range_chain_unique(e1: Expr, e2: Expr, col: usize, k: nat, start: int)
    requires
        range_chain(e1, col, k, start),
        range_chain(e2, col, k, start),
    ensures
        e1 == e2,
    decreases k,
{
    if k == 0 {
    } else {
        match (e1, e2) {
            (Expr::Product(l1, r1), Expr::Product(l2, r2)) => {
                lemma_range_chain_unique(*l1, *l2, col, (k - 1) as nat, start);
                match (*r1, *r2) {
                    (Expr::Sum(c1, n1), Expr::Sum(c2, n2)) => {
                        match (*c1, *c2) {
                            (Expr::Constant(f1), Expr::Constant(f2)) => {
                                crate::field::lemma_eq_from_view(f1, f2);
                            },
                            _ => {
                                assert(false);
                            },
                        }
                        match (*n1, *n2) {
                            (Expr::Negated(a1), Expr::Negated(a2)) => {
                                assert(*a1 == *a2);
                            },
                            _ => {
                                assert(false);
                            },
                        }
                        assert(*r1 == *r2);
                    },
                    _ => {
                        assert(false);
                    },
                }
            },
            _ => {
                assert(false);
            },
        }
    }
}

/// The shape of the range-check circuit: the advice column under test
/// and its gate's selector.
#[derive(Clone, Copy, PartialEq, Eq, Structural, Debug)]
pub struct CircuitConfig {
    pub value: AdviceColumn,
    pub s: Selector,
}

/// Exactly what configuration adds to a description: one fresh advice
/// column, one fresh selector, and one gate holding the selector times
/// the vanishing product over the residues `0 .. range_right - 1`.
pub open spec fn range_configured(
    pre: ConstraintSystem,
    post: ConstraintSystem,
    c: CircuitConfig,
    range_right: u64,
) -> bool {
    &&& c.value.index == pre.num_advice()
    &&& c.s.index == pre.num_selectors
    &&& post.advice_eq@ == pre.advice_eq@.push(false)
    &&& post.instance_eq@ == pre.instance_eq@
    &&& post.num_fixed == pre.num_fixed
    &&& post.num_selectors == pre.num_selectors + 1
    &&& post.gates@.len() == pre.gates@.len() + 1
    &&& forall|i: int| 0 <= i < pre.gates@.len() ==> post.gates@[i] == pre.gates@[i]
    &&& post.gates@[pre.gates@.len() as int].name@ == "value in range [a,b]"@
    &&& post.gates@[pre.gates@.len() as int].polys@.len() == 1
    &&& (post.gates@[pre.gates@.len() as int].polys@[0] matches Expr::Product(sl, ch) && *sl
        == (Expr::Selector { sel: c.s.index }) && range_chain(
        *ch,
        c.value.index,
        (range_right - 1) as nat,
        1,
    ))
}

/// The configuration fits the description it came from.
pub open spec fn range_config_wf(c: CircuitConfig, cs: ConstraintSystem) -> bool {
    &&& c.value.index < cs.num_advice()
    &&& c.s.index < cs.num_selectors
}

/// Exactly what a successful single-value assignment does to a fresh
/// row: one single-row region is placed at the old cursor, the selector
/// is on there, the cell under test carries `v`, and nothing else of
/// the grid moved.
pub open spec fn range_assigned(
    l0: Layouter,
    l1: Layouter,
    value: AdviceColumn,
    s: Selector,
    v: Fp,
) -> bool {
    let base = l0.next_row as int;
    &&& l1.cs == l0.cs
    &&& l1.next_row == l0.next_row + 1
    &&& l1.in_region == false
    &&& l1.regions@ == l0.regions@.push(PlacedRegion { base: l0.next_row, rows: 1 })
    &&& l1.asg.n == l0.asg.n
    &&& l1.asg.advice_opt(value.index as int, base) == Some(v)
    &&& forall|c2: int, r2: int|
        0 <= c2 < l0.cs.num_advice() && 0 <= r2 < l0.asg.n && !(r2 == base && c2 == value.index)
            ==> l1.asg.advice_opt(c2, r2) == l0.asg.advice_opt(c2, r2)
    &&& l1.asg.sel_on(s.index as int, base)
    &&& forall|s2: int, r2: int|
        0 <= s2 < l0.cs.num_selectors && 0 <= r2 < l0.asg.n && !(s2 == s.index && r2 == base)
            ==> l1.asg.sel_on(s2, r2) == l0.asg.sel_on(s2, r2)
    &&& l1.asg.fixed@ == l0.asg.fixed@
    &&& l1.asg.copies@ == l0.asg.copies@
}

/// The chip of the range-check circuit.
pub struct CircuitChip {
    pub config: CircuitConfig,
}

impl CircuitChip {
    /// Declares the circuit's shape: the advice column under test, a
    /// selector, and the vanishing-product gate for the range
    /// `0 .. range_right - 1`.
    pub fn configure(meta: &mut ConstraintSystem, range_right: u64) -> (c: CircuitConfig)
        requires
            old(meta).wf(),
            old(meta).num_selectors < usize::MAX,
            range_right >= 1,
        ensures
            final(meta).wf(),
            range_configured(*old(meta), *final(meta), c, range_right),
            range_config_wf(c, *final(meta)),
    {
        let value = meta.advice_column();
        let s = meta.selector();
        let config = CircuitConfig { value, s };

        let mut chain = meta.query_advice(value, 0);
        let ghost meta_snap = *meta;
        let mut b: u64 = 1;
        while b < range_right
            invariant
                1 <= b <= range_right,
                *meta == meta_snap,
                value.index < meta.num_advice(),
                s.index < meta.num_selectors,
                range_chain(chain, value.index, (b - 1) as nat, 1),
                expr_wf(
                    chain,
                    meta.num_advice(),
                    meta.num_instance(),
                    meta.num_fixed as int,
                    meta.num_selectors as int,
                ),
            decreases range_right - b,
        {
            let fb = Fp::from_u64(b);
            let cst = Expr::constant(fb);
            let v = meta.query_advice(value, 0);
            let factor = cst.minus(v);
            proof {
                let na = meta.num_advice();
                let ni = meta.num_instance();
                let nf = meta.num_fixed as int;
                let ns = meta.num_selectors as int;
                let ev = Expr::Advice { col: value.index, rot: 0i32 };
                assert(expr_wf(ev, na, ni, nf, ns));
                let en = Expr::Negated(Box::new(ev));
                assert(expr_wf(en, na, ni, nf, ns));
                assert(expr_wf(Expr::Constant(fb), na, ni, nf, ns));
                assert(factor == Expr::Sum(Box::new(Expr::Constant(fb)), Box::new(en)));
                assert(expr_wf(factor, na, ni, nf, ns));
                assert(expr_wf(Expr::Product(Box::new(chain), Box::new(factor)), na, ni, nf, ns));
            }
            chain = chain.times(factor);
            b = b + 1;
        }
        let s_query = meta.query_selector(s);
        let ghost chain_snap = chain;
        let poly = s_query.times(chain);
        proof {
            let na = meta.num_advice();
            let ni = meta.num_instance();
            let nf = meta.num_fixed as int;
            let ns = meta.num_selectors as int;
            let es = Expr::Selector { sel: s.index };
            assert(expr_wf(es, na, ni, nf, ns));
            assert(poly == Expr::Product(Box::new(es), Box::new(chain_snap)));
            assert(expr_wf(poly, na, ni, nf, ns));
        }
        let mut polys: Vec<Expr> = Vec::new();
        polys.push(poly);
        meta.create_gate("value in range [a,b]", polys);
        proof {
            assert(meta.advice_eq@ =~= old(meta).advice_eq@.push(false));
        }
        config
    }

    /// Wraps a configuration.
    pub fn construct(config: CircuitConfig) -> (r: Self)
        ensures
            r.config == config,
    {
        Self { config }
    }

    /// Places one region and writes the value under test into it, with
    /// its gate's selector on.  Fails with `MissingWitness`, and with
    /// the layouter unfinished, when the value is absent.
    pub fn assign(&self, layout: &mut Layouter, value: Option<Fp>) -> (r: Result<(), Error>)
        requires
            old(layout).wf(),
            !old(layout).in_region,
            old(layout).next_row < old(layout).asg.n,
            range_config_wf(self.config, old(layout).cs),
            old(layout).asg.advice_opt(
                self.config.value.index as int,
                old(layout).next_row as int,
            ) is None,
            value is Some ==> value.unwrap().wf(),
        ensures
            final(layout).wf(),
            value is Some ==> r == Ok::<(), Error>(()) && range_assigned(
                *old(layout),
                *final(layout),
                self.config.value,
                self.config.s,
                value.unwrap(),
            ),
            value is None ==> r == Err::<(), Error>(Error::MissingWitness),
    {
        layout.begin_region();
        layout.enable_selector(self.config.s, 0);
        match layout.assign_advice(self.config.value, 0, value) {
            Ok(_) => {},
            Err(e) => {
                return Err(e);
            },
        };
        layout.end_region();
        Ok(())
    }
}

/// The range-check circuit: an optional witness value and the
/// exclusive upper bound of the accepted range.
pub struct MyCircuit {
    pub value: Option<Fp>,
    pub range: u64,
}

impl MyCircuit {
    /// The same circuit with the witness dropped, as used for a dry
    /// configuration pass.
    pub fn without_witnesses(&self) -> (r: Self)
        ensures
            r.value is None,
            r.range == self.range,
    {
        MyCircuit { value: None, range: self.range }
    }

    /// Declares the circuit's shape.
    pub fn configure(&self, meta: &mut ConstraintSystem) -> (c: CircuitConfig)
        requires
            old(meta).wf(),
            old(meta).num_selectors < usize::MAX,
            self.range >= 1,
        ensures
            final(meta).wf(),
            range_configured(*old(meta), *final(meta), c, self.range),
            range_config_wf(c, *final(meta)),
    {
        CircuitChip::configure(meta, self.range)
    }

    /// Fills a fresh row with this circuit's witness.
    pub fn synthesize(&self, config: CircuitConfig, layouter: &mut Layouter) -> (r: Result<
        (),
        Error,
    >)
        requires
            old(layouter).wf(),
            !old(layouter).in_region,
            old(layouter).next_row < old(layouter).asg.n,
            range_config_wf(config, old(layouter).cs),
            old(layouter).asg.advice_opt(
                config.value.index as int,
                old(layouter).next_row as int,
            ) is None,
            self.value is Some ==> self.value.unwrap().wf(),
        ensures
            final(layouter).wf(),
            self.value is Some ==> r == Ok::<(), Error>(()) && range_assigned(
                *old(layouter),
                *final(layouter),
                config.value,
                config.s,
                self.value.unwrap(),
            ),
            self.value is None ==> r == Err::<(), Error>(Error::MissingWitness),
    {
        let chip = CircuitChip::construct(config);
        chip.assign(layouter, self.value)
    }
}

/// Range membership, completeness direction: once configured from an
/// empty description and synthesized on a fresh grid from a witness
/// whose residue lies below the range bound, the circuit is satisfied
/// by any well-formed public input vector.
pub proof fn lemma_range_circuit_in_range_clean(
    pre: ConstraintSystem,
    cs: ConstraintSystem,
    cfg: CircuitConfig,
    l0: Layouter,
    l1: Layouter,
    v: Fp,
    range_right: u64,
    inst: Vec<Vec<Fp>>,
)
    requires
        pre.num_advice() == 0,
        pre.num_instance() == 0,
        pre.num_fixed == 0,
        pre.num_selectors == 0,
        pre.gates@.len() == 0,
        range_right >= 1,
        range_configured(pre, cs, cfg, range_right),
        l0.wf(),
        l0.cs == cs,
        l0.next_row == 0,
        l0.asg.n >= 1,
        l0.asg.copies@.len() == 0,
        forall|s2: int, r2: int|
            0 <= s2 < cs.num_selectors && 0 <= r2 < l0.asg.n ==> !(#[trigger] l0.asg.sel_on(
                s2,
                r2,
            )),
        range_assigned(l0, l1, cfg.value, cfg.s, v),
        v.wf(),
        v@ < range_right,
        inst_wf(inst, cs, l1.asg.n as int),
    ensures
        satisfied(cs, l1.asg, inst),
{
    let n = l1.asg.n as int;
    let asg = l1.asg;
    assert(cs.gates@.len() == 1);
    assert(cs.gates@[0].polys@.len() == 1);
    let poly = cs.gates@[0].polys@[0];

    assert forall|row: int| 0 <= row < n implies eval(poly, asg, inst, row) == 0 by {
        match poly {
            Expr::Product(sl, ch) => {
                let es = Expr::Selector { sel: cfg.s.index };
                assert(*sl == es);
                if row == 0 {
                    assert(asg.sel_on(cfg.s.index as int, 0));
                    assert(eval(*sl, asg, inst, row) == 1);
                    let m = asg.advice_val(cfg.value.index as int, 0);
                    assert(asg.advice_opt(cfg.value.index as int, 0) == Some(v));
                    assert(m == v@);
                    crate::field::lemma_wf_range(v);
                    if m == 0 {
                    } else {
                        assert((m - 1 + 1) % (MODULUS as int) == m) by {
                            lemma_small_mod(m as nat, MODULUS as nat);
                        }
                        assert(1 <= m <= range_right - 1);
                        assert(exists|j: int|
                            1 <= j <= (range_right - 1) as nat && #[trigger] ((j - 1 + 1) % (
                            MODULUS as int)) == m) by {
                            assert(1 <= m <= (range_right - 1) as nat && (m - 1 + 1) % (
                            MODULUS as int) == m);
                        }
                    }
                    lemma_range_chain_zero(
                        *ch,
                        cfg.value.index,
                        (range_right - 1) as nat,
                        1,
                        asg,
                        inst,
                        row,
                    );
                    assert(eval(poly, asg, inst, row) == f_mul(1, 0));
                    lemma_f_mul_zero(1);
                } else {
                    assert(asg.sel_on(cfg.s.index as int, row) == l0.asg.sel_on(
                        cfg.s.index as int,
                        row,
                    ));
                    assert(eval(*sl, asg, inst, row) == 0);
                    assert(eval(poly, asg, inst, row) == f_mul(0, eval(*ch, asg, inst, row)));
                    lemma_f_mul_zero(eval(*ch, asg, inst, row));
                }
            },
            _ => {
                assert(false);
            },
        }
    }
    assert(asg.copies@.len() == 0);
    assert(satisfied(cs, asg, inst));
}

/// Idempotent configuration: two configuration passes over the same
/// starting description, for the same range bound, yield the same
/// handles and structurally identical descriptions.
pub proof fn lemma_range_configure_deterministic(
    pre: ConstraintSystem,
    post1: ConstraintSystem,
    c1: CircuitConfig,
    post2: ConstraintSystem,
    c2: CircuitConfig,
    range_right: u64,
)
    requires
        range_right >= 1,
        range_configured(pre, post1, c1, range_right),
        range_configured(pre, post2, c2, range_right),
    ensures
        c1 == c2,
        post1.equivalent(post2),
{
    assert forall|i: int|
        0 <= i < post1.gates@.len() implies (#[trigger] post1.gates@[i]).name@
        == post2.gates@[i].name@ && post1.gates@[i].polys@ == post2.gates@[i].polys@ by {
        if i < pre.gates@.len() {
            assert(post1.gates@[i] == pre.gates@[i]);
            assert(post2.gates@[i] == pre.gates@[i]);
        } else {
            let p1 = post1.gates@[i].polys@[0];
            let p2 = post2.gates@[i].polys@[0];
            match (p1, p2) {
                (Expr::Product(s1, ch1), Expr::Product(s2, ch2)) => {
                    lemma_range_chain_unique(
                        *ch1,
                        *ch2,
                        c1.value.index,
                        (range_right - 1) as nat,
                        1,
                    );
                    assert(p1 == p2);
                },
                _ => {
                    assert(false);
                },
            }
            assert(post1.gates@[i].polys@ =~= post2.gates@[i].polys@);
        }
    }
}

} // verus!
