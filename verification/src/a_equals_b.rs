//! The equality circuit: one row, two advice cells `a` and `b`, and the
//! gate `s * (a - b)`, so that an activated row is satisfied exactly
//! when the two cells carry equal values.

use crate::checker::{eval, inst_wf, lemma_abs_row_zero, satisfied};
use crate::expression::{expr_wf, Expr};
use crate::field::{
    f_add, f_mul, f_neg, lemma_f_diff_zero_iff, lemma_f_mul_one, lemma_f_mul_zero,
    lemma_wf_range, Fp, MODULUS,
};
use crate::layout::{Error, Layouter, PlacedRegion};
use crate::system::{AdviceColumn, ConstraintSystem, Selector};
use vstd::arithmetic::div_mod::lemma_mod_bound;
use vstd::prelude::*;

verus! {

/// The shape of the equality circuit: two advice columns and the
/// selector that activates its gate.
#[derive(Clone, Copy, PartialEq, Eq, Structural, Debug)]
pub struct AEqBConfig {
    pub a_value: AdviceColumn,
    pub b_value: AdviceColumn,
    pub selector: Selector,
}

/// The circuit's gate polynomial `s * (a - b)`.
pub open spec fn aeqb_poly(c: AEqBConfig) -> Expr {
    Expr::Product(
        Box::new(Expr::Selector { sel: c.selector.index }),
        Box::new(
            Expr::Sum(
                Box::new(Expr::Advice { col: c.a_value.index, rot: 0 }),
                Box::new(
                    Expr::Negated(Box::new(Expr::Advice { col: c.b_value.index, rot: 0 })),
                ),
            ),
        ),
    )
}

/// Exactly what configuration adds to a description: two fresh advice
/// columns, both equality-enabled, one fresh selector, and one gate
/// holding `s * (a - b)`.
pub open spec fn aeqb_configured(
    pre: ConstraintSystem,
    post: ConstraintSystem,
    c: AEqBConfig,
) -> bool {
    &&& c.a_value.index == pre.num_advice()
    &&& c.b_value.index == pre.num_advice() + 1
    &&& c.selector.index == pre.num_selectors
    &&& post.advice_eq@ == pre.advice_eq@.push(true).push(true)
    &&& post.instance_eq@ == pre.instance_eq@
    &&& post.num_fixed == pre.num_fixed
    &&& post.num_selectors == pre.num_selectors + 1
    &&& post.gates@.len() == pre.gates@.len() + 1
    &&& forall|i: int| 0 <= i < pre.gates@.len() ==> post.gates@[i] == pre.gates@[i]
    &&& post.gates@[pre.gates@.len() as int].name@ == "a equal b"@
    &&& post.gates@[pre.gates@.len() as int].polys@ =~= seq![aeqb_poly(c)]
}

/// The configuration fits the description it came from.
pub open spec fn aeqb_config_wf(c: AEqBConfig, cs: ConstraintSystem) -> bool {
    &&& c.a_value.index < cs.num_advice()
    &&& c.b_value.index < cs.num_advice()
    &&& c.a_value.index != c.b_value.index
    &&& c.selector.index < cs.num_selectors
}

/// Exactly what a successful assignment does to a fresh row: one
/// single-row region is placed at the old cursor, the selector is on
/// there, `a` and `b` sit in their columns there, and nothing else of
/// the grid moved.
pub open spec fn aeqb_assigned(
    l0: Layouter,
    l1: Layouter,
    c: AEqBConfig,
    a: Fp,
    b: Fp,
) -> bool {
    let base = l0.next_row as int;
    &&& l1.cs == l0.cs
    &&& l1.next_row == l0.next_row + 1
    &&& l1.in_region == false
    &&& l1.regions@ == l0.regions@.push(PlacedRegion { base: l0.next_row, rows: 1 })
    &&& l1.asg.n == l0.asg.n
    &&& l1.asg.advice_opt(c.a_value.index as int, base) == Some(a)
    &&& l1.asg.advice_opt(c.b_value.index as int, base) == Some(b)
    &&& forall|c2: int, r2: int|
        0 <= c2 < l0.cs.num_advice() && 0 <= r2 < l0.asg.n && !(r2 == base && (c2
            == c.a_value.index || c2 == c.b_value.index)) ==> l1.asg.advice_opt(c2, r2)
            == l0.asg.advice_opt(c2, r2)
    &&& l1.asg.sel_on(c.selector.index as int, base)
    &&& forall|s2: int, r2: int|
        0 <= s2 < l0.cs.num_selectors && 0 <= r2 < l0.asg.n && !(s2 == c.selector.index && r2
            == base) ==> l1.asg.sel_on(s2, r2) == l0.asg.sel_on(s2, r2)
    &&& l1.asg.fixed@ == l0.asg.fixed@
    &&& l1.asg.copies@ == l0.asg.copies@
}

/// The chip of the equality circuit.
pub struct AEqBChip {
    pub config: AEqBConfig,
}

impl AEqBChip {
    /// Wraps a configuration.
    pub fn construct(config: AEqBConfig) -> (r: Self)
        ensures
            r.config == config,
    {
        Self { config }
    }

    /// Declares the circuit's shape: two equality-enabled advice
    /// columns, a selector, and a gate holding `s * (a - b)`.
    pub fn configure(meta: &mut ConstraintSystem) -> (c: AEqBConfig)
        requires
            old(meta).wf(),
            old(meta).num_selectors < usize::MAX,
        ensures
            final(meta).wf(),
            aeqb_configured(*old(meta), *final(meta), c),
            aeqb_config_wf(c, *final(meta)),
    {
        let a_value = meta.advice_column();
        let b_value = meta.advice_column();
        let selector = meta.selector();

        meta.enable_equality(a_value);
        meta.enable_equality(b_value);

        let config = AEqBConfig { a_value, b_value, selector };
        let a = meta.query_advice(a_value, 0);
        let b = meta.query_advice(b_value, 0);
        let s = meta.query_selector(selector);
        let mut polys: Vec<Expr> = Vec::new();
        polys.push(s.times(a.minus(b)));
        proof {
            assert(polys@[0] == aeqb_poly(config));
            let na = meta.num_advice();
            let ni = meta.num_instance();
            let nf = meta.num_fixed as int;
            let ns = meta.num_selectors as int;
            let ea = Expr::Advice { col: config.a_value.index, rot: 0i32 };
            let eb = Expr::Advice { col: config.b_value.index, rot: 0i32 };
            let es = Expr::Selector { sel: config.selector.index };
            assert(expr_wf(ea, na, ni, nf, ns));
            assert(expr_wf(eb, na, ni, nf, ns));
            assert(expr_wf(es, na, ni, nf, ns));
            let en = Expr::Negated(Box::new(eb));
            assert(expr_wf(en, na, ni, nf, ns));
            let ed = Expr::Sum(Box::new(ea), Box::new(en));
            assert(expr_wf(ed, na, ni, nf, ns));
            assert(expr_wf(Expr::Product(Box::new(es), Box::new(ed)), na, ni, nf, ns));
            assert(aeqb_poly(config) == Expr::Product(Box::new(es), Box::new(ed)));
        }
        meta.create_gate("a equal b", polys);
        proof {
            assert(meta.advice_eq@ =~= old(meta).advice_eq@.push(true).push(true));
            assert(meta.gates@[old(meta).gates@.len() as int].polys@ =~= seq![aeqb_poly(config)]);
        }
        config
    }

    /// Places one region and writes the two witness values into it,
    /// with its gate's selector on.  Fails with `MissingWitness`, and
    /// with the layouter unfinished, when either value is absent.
    pub fn assign(&self, layout: &mut Layouter, a: Option<Fp>, b: Option<Fp>) -> (r: Result<
        (),
        Error,
    >)
        requires
            old(layout).wf(),
            !old(layout).in_region,
            old(layout).next_row < old(layout).asg.n,
            aeqb_config_wf(self.config, old(layout).cs),
            old(layout).asg.advice_opt(
                self.config.a_value.index as int,
                old(layout).next_row as int,
            ) is None,
            old(layout).asg.advice_opt(
                self.config.b_value.index as int,
                old(layout).next_row as int,
            ) is None,
            a is Some ==> a.unwrap().wf(),
            b is Some ==> b.unwrap().wf(),
        ensures
            final(layout).wf(),
            a is Some && b is Some ==> r == Ok::<(), Error>(()) && aeqb_assigned(
                *old(layout),
                *final(layout),
                self.config,
                a.unwrap(),
                b.unwrap(),
            ),
            a is None || b is None ==> r == Err::<(), Error>(Error::MissingWitness),
    {
        layout.begin_region();
        layout.enable_selector(self.config.selector, 0);
        let _a_cell = match layout.assign_advice(self.config.a_value, 0, a) {
            Ok(cell) => cell,
            Err(e) => {
                return Err(e);
            },
        };
        let _b_cell = match layout.assign_advice(self.config.b_value, 0, b) {
            Ok(cell) => cell,
            Err(e) => {
                return Err(e);
            },
        };
        layout.end_region();
        Ok(())
    }
}

/// The equality circuit: two optional witness values.
pub struct AEqbCircuit {
    pub a: Option<Fp>,
    pub b: Option<Fp>,
}

impl AEqbCircuit {
    /// The same circuit with the witness dropped, as used for a dry
    /// configuration pass.
    pub fn without_witnesses(&self) -> (r: Self)
        ensures
            r.a is None,
            r.b is None,
    {
        AEqbCircuit { a: None, b: None }
    }

    /// Declares the circuit's shape.
    pub fn configure(meta: &mut ConstraintSystem) -> (c: AEqBConfig)
        requires
            old(meta).wf(),
            old(meta).num_selectors < usize::MAX,
        ensures
            final(meta).wf(),
            aeqb_configured(*old(meta), *final(meta), c),
            aeqb_config_wf(c, *final(meta)),
    {
        AEqBChip::configure(meta)
    }

    /// Fills a fresh row with this circuit's witness.
    pub fn synthesize(&self, config: AEqBConfig, layouter: &mut Layouter) -> (r: Result<
        (),
        Error,
    >)
        requires
            old(layouter).wf(),
            !old(layouter).in_region,
            old(layouter).next_row < old(layouter).asg.n,
            aeqb_config_wf(config, old(layouter).cs),
            old(layouter).asg.advice_opt(
                config.a_value.index as int,
                old(layouter).next_row as int,
            ) is None,
            old(layouter).asg.advice_opt(
                config.b_value.index as int,
                old(layouter).next_row as int,
            ) is None,
            self.a is Some ==> self.a.unwrap().wf(),
            self.b is Some ==> self.b.unwrap().wf(),
        ensures
            final(layouter).wf(),
            self.a is Some && self.b is Some ==> r == Ok::<(), Error>(()) && aeqb_assigned(
                *old(layouter),
                *final(layouter),
                config,
                self.a.unwrap(),
                self.b.unwrap(),
            ),
            self.a is None || self.b is None ==> r == Err::<(), Error>(Error::MissingWitness),
    {
        let chip = AEqBChip::construct(config);
        chip.assign(layouter, self.a, self.b)
    }
}

/// Completeness and soundness of the equality circuit: once configured
/// from an empty description and synthesized on a fresh grid, the
/// circuit is satisfied by any well-formed public input vector exactly
/// when the two witness values are equal.
pub proof fn lemma_aeqb_circuit_iff(
    pre: ConstraintSystem,
    cs: ConstraintSystem,
    cfg: AEqBConfig,
    l0: Layouter,
    l1: Layouter,
    av: Fp,
    bv: Fp,
    inst: Vec<Vec<Fp>>,
)
    requires
        pre.num_advice() == 0,
        pre.num_instance() == 0,
        pre.num_fixed == 0,
        pre.num_selectors == 0,
        pre.gates@.len() == 0,
        aeqb_configured(pre, cs, cfg),
        l0.wf(),
        l0.cs == cs,
        l0.next_row == 0,
        l0.asg.n >= 1,
        l0.asg.copies@.len() == 0,
        forall|s2: int, r2: int|
            0 <= s2 < cs.num_selectors && 0 <= r2 < l0.asg.n ==> !(#[trigger] l0.asg.sel_on(
                s2,
                r2,
            )),
        aeqb_assigned(l0, l1, cfg, av, bv),
        av.wf(),
        bv.wf(),
        inst_wf(inst, cs, l1.asg.n as int),
    ensures
        satisfied(cs, l1.asg, inst) <==> av@ == bv@,
{
    let n = l1.asg.n as int;
    let asg = l1.asg;
    assert(cs.gates@.len() == 1);
    assert(cs.gates@[0].polys@.len() == 1);
    assert(cs.gates@[0].polys@[0] == aeqb_poly(cfg));
    lemma_wf_range(av);
    lemma_wf_range(bv);

    let es = Expr::Selector { sel: cfg.selector.index };
    let ea = Expr::Advice { col: cfg.a_value.index, rot: 0i32 };
    let eb = Expr::Advice { col: cfg.b_value.index, rot: 0i32 };
    let enb = Expr::Negated(Box::new(eb));
    let inner = Expr::Sum(Box::new(ea), Box::new(enb));
    assert(aeqb_poly(cfg) == Expr::Product(Box::new(es), Box::new(inner)));

    assert forall|row: int| 0 < row < n implies eval(aeqb_poly(cfg), asg, inst, row) == 0 by {
        lemma_abs_row_zero(row, n);
        assert(asg.sel_on(cfg.selector.index as int, row) == l0.asg.sel_on(
            cfg.selector.index as int,
            row,
        ));
        assert(eval(es, asg, inst, row) == 0);
        assert(eval(aeqb_poly(cfg), asg, inst, row) == f_mul(0, eval(inner, asg, inst, row)));
        lemma_f_mul_zero(eval(inner, asg, inst, row));
    }

    lemma_abs_row_zero(0, n);
    assert(asg.sel_on(cfg.selector.index as int, 0));
    assert(eval(es, asg, inst, 0) == 1);
    assert(eval(ea, asg, inst, 0) == av@);
    assert(eval(eb, asg, inst, 0) == bv@);
    assert(eval(enb, asg, inst, 0) == f_neg(bv@));
    assert(eval(inner, asg, inst, 0) == f_add(av@, f_neg(bv@)));
    lemma_mod_bound(av@ + f_neg(bv@), MODULUS as int);
    lemma_f_mul_one(f_add(av@, f_neg(bv@)));
    assert(eval(aeqb_poly(cfg), asg, inst, 0) == f_add(av@, f_neg(bv@)));
    lemma_f_diff_zero_iff(av@, bv@);

    assert(asg.copies@.len() == 0);
    if av@ == bv@ {
        assert forall|g: int, p: int, row: int|
            0 <= g < cs.gates@.len() && 0 <= p < cs.gates@[g].polys@.len() && 0 <= row < asg.n
                implies crate::checker::gate_ok(cs, asg, inst, g, p, row) by {
            assert(g == 0 && p == 0);
            if row == 0 {
                assert(eval(aeqb_poly(cfg), asg, inst, 0) == 0);
            }
        }
        assert(satisfied(cs, asg, inst));
    } else {
        assert(eval(aeqb_poly(cfg), asg, inst, 0) != 0);
        assert(!crate::checker::gate_ok(cs, asg, inst, 0, 0, 0));
        assert(!satisfied(cs, asg, inst));
    }
}

/// Idempotent configuration: two configuration passes over the same
/// starting description yield the same handles and structurally
/// identical descriptions — the same columns in the same order, the
/// same equality flags, and the same gates.
pub proof fn lemma_aeqb_configure_deterministic(
    pre: ConstraintSystem,
    post1: ConstraintSystem,
    c1: AEqBConfig,
    post2: ConstraintSystem,
    c2: AEqBConfig,
)
    requires
        aeqb_configured(pre, post1, c1),
        aeqb_configured(pre, post2, c2),
    ensures
        c1 == c2,
        post1.equivalent(post2),
{
    assert forall|i: int|
        0 <= i < post1.gates@.len() implies (#[trigger] post1.gates@[i]).name@
        == post2.gates@[i].name@ && post1.gates@[i].polys@ == post2.gates@[i].polys@ by {
        if i < pre.gates@.len() {
            assert(post1.gates@[i] == pre.gates@[i]);
            assert(post2.gates@[i] == pre.gates@[i]);
        }
    }
}

} // verus!
