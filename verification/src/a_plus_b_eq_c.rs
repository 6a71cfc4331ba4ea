//! The sum-check circuit: each activated row carries `a`, `b` and
//! `c = a + b` under a gate holding `s * (a + b - c)`, and the `c` cell of the
//! last row is exposed as public input number zero.

use crate::checker::{
    cell_value, copy_ok, eval, gate_ok, inst_val, inst_wf, lemma_abs_row_zero, satisfied,
};
use crate::expression::{expr_wf, Expr};
use crate::field::{f_add, f_mul, f_neg, lemma_f_add_neg, lemma_f_mul_zero, Fp, MODULUS};
use crate::layout::{AssignedCell, Cell, ColumnKind, CopyConstraint, Error, Layouter, PlacedRegion};
use crate::system::{AdviceColumn, ConstraintSystem, InstanceColumn, Selector};
use vstd::arithmetic::div_mod::lemma_mod_bound;
use vstd::prelude::*;

verus! {

/// The shape of the sum-check circuit: three advice columns, the
/// instance column holding the expected sum, and its gate's selector.
#[derive(Clone, Copy, PartialEq, Eq, Structural, Debug)]
pub struct APlusBEqCConfig {
    pub a: AdviceColumn,
    pub b: AdviceColumn,
    pub c: AdviceColumn,
    pub out: InstanceColumn,
    pub s: Selector,
}

/// The circuit's gate polynomial `s * (a + b - c)`.
pub open spec fn sum_poly(c: APlusBEqCConfig) -> Expr {
    Expr::Product(
        Box::new(Expr::Selector { sel: c.s.index }),
        Box::new(
            Expr::Sum(
                Box::new(
                    Expr::Sum(
                        Box::new(Expr::Advice { col: c.a.index, rot: 0 }),
                        Box::new(Expr::Advice { col: c.b.index, rot: 0 }),
                    ),
                ),
                Box::new(Expr::Negated(Box::new(Expr::Advice { col: c.c.index, rot: 0 }))),
            ),
        ),
    )
}

/// Exactly what configuration adds to a description: three fresh advice
/// columns of which only `c` is equality-enabled, one equality-enabled
/// instance column, one selector, and one gate holding
/// `s * (a + b - c)`.
pub open spec fn sum_configured(
    pre: ConstraintSystem,
    post: ConstraintSystem,
    c: APlusBEqCConfig,
) -> bool {
    &&& c.a.index == pre.num_advice()
    &&& c.b.index == pre.num_advice() + 1
    &&& c.c.index == pre.num_advice() + 2
    &&& c.out.index == pre.num_instance()
    &&& c.s.index == pre.num_selectors
    &&& post.advice_eq@ == pre.advice_eq@.push(false).push(false).push(true)
    &&& post.instance_eq@ == pre.instance_eq@.push(true)
    &&& post.num_fixed == pre.num_fixed
    &&& post.num_selectors == pre.num_selectors + 1
    &&& post.gates@.len() == pre.gates@.len() + 1
    &&& forall|i: int| 0 <= i < pre.gates@.len() ==> post.gates@[i] == pre.gates@[i]
    &&& post.gates@[pre.gates@.len() as int].name@ == "a+b=c"@
    &&& post.gates@[pre.gates@.len() as int].polys@ =~= seq![sum_poly(c)]
}

/// The configuration fits the description it came from, with the
/// columns the exposure step needs flagged for equality.
pub open spec fn sum_config_wf(c: APlusBEqCConfig, cs: ConstraintSystem) -> bool {
    &&& c.a.index < cs.num_advice()
    &&& c.b.index < cs.num_advice()
    &&& c.c.index < cs.num_advice()
    &&& c.a.index != c.b.index
    &&& c.a.index != c.c.index
    &&& c.b.index != c.c.index
    &&& c.out.index < cs.num_instance()
    &&& c.s.index < cs.num_selectors
    &&& cs.advice_eq@[c.c.index as int]
    &&& cs.instance_eq@[c.out.index as int]
}

/// Exactly what one successful assignment does to a fresh row: one
/// single-row region is placed at the old cursor, the selector is on
/// there, the three cells carry `a`, `b` and `a + b`, and nothing else
/// of the grid moved.
pub open spec fn sum_assigned(
    l0: Layouter,
    l1: Layouter,
    c: APlusBEqCConfig,
    av: Fp,
    bv: Fp,
) -> bool {
    let base = l0.next_row as int;
    &&& l1.cs == l0.cs
    &&& l1.next_row == l0.next_row + 1
    &&& l1.in_region == false
    &&& l1.regions@ == l0.regions@.push(PlacedRegion { base: l0.next_row, rows: 1 })
    &&& l1.asg.n == l0.asg.n
    &&& l1.asg.advice_opt(c.a.index as int, base) == Some(av)
    &&& l1.asg.advice_opt(c.b.index as int, base) == Some(bv)
    &&& l1.asg.advice_opt(c.c.index as int, base) is Some
    &&& l1.asg.advice_val(c.c.index as int, base) == f_add(av@, bv@)
    &&& forall|c2: int, r2: int|
        0 <= c2 < l0.cs.num_advice() && 0 <= r2 < l0.asg.n && !(r2 == base && (c2 == c.a.index
            || c2 == c.b.index || c2 == c.c.index)) ==> l1.asg.advice_opt(c2, r2)
            == l0.asg.advice_opt(c2, r2)
    &&& l1.asg.sel_on(c.s.index as int, base)
    &&& forall|s2: int, r2: int|
        0 <= s2 < l0.cs.num_selectors && 0 <= r2 < l0.asg.n && !(s2 == c.s.index && r2 == base)
            ==> l1.asg.sel_on(s2, r2) == l0.asg.sel_on(s2, r2)
    &&& l1.asg.fixed@ == l0.asg.fixed@
    &&& l1.asg.copies@ == l0.asg.copies@
}

/// The chip of the sum-check circuit.
pub struct APlusBEqCChip {
    pub config: APlusBEqCConfig,
}

impl APlusBEqCChip {
    /// Wraps a configuration.
    pub fn construct(config: APlusBEqCConfig) -> (r: Self)
        ensures
            r.config == config,
    {
        Self { config }
    }

    /// Declares the circuit's shape: three advice columns, an instance
    /// column, a selector, equality on the `c` and instance columns,
    /// and a gate holding `s * (a + b - c)`.
    pub fn configure(meta: &mut ConstraintSystem) -> (c: APlusBEqCConfig)
        requires
            old(meta).wf(),
            old(meta).num_selectors < usize::MAX,
        ensures
            final(meta).wf(),
            sum_configured(*old(meta), *final(meta), c),
            sum_config_wf(c, *final(meta)),
    {
        let a_advice = meta.advice_column();
        let b_advice = meta.advice_column();
        let c_advice = meta.advice_column();
        let instance = meta.instance_column();
        let s = meta.selector();

        meta.enable_instance_equality(instance);
        meta.enable_equality(c_advice);

        let config = APlusBEqCConfig { a: a_advice, b: b_advice, c: c_advice, out: instance, s };
        let a_value = meta.query_advice(a_advice, 0);
        let b_value = meta.query_advice(b_advice, 0);
        let c_value = meta.query_advice(c_advice, 0);
        let s_query = meta.query_selector(s);
        let mut polys: Vec<Expr> = Vec::new();
        polys.push(s_query.times(a_value.plus(b_value).minus(c_value)));
        proof {
            assert(polys@[0] == sum_poly(config));
            let na = meta.num_advice();
            let ni = meta.num_instance();
            let nf = meta.num_fixed as int;
            let ns = meta.num_selectors as int;
            let ea = Expr::Advice { col: config.a.index, rot: 0i32 };
            let eb = Expr::Advice { col: config.b.index, rot: 0i32 };
            let ec = Expr::Advice { col: config.c.index, rot: 0i32 };
            let es = Expr::Selector { sel: config.s.index };
            assert(expr_wf(ea, na, ni, nf, ns));
            assert(expr_wf(eb, na, ni, nf, ns));
            assert(expr_wf(ec, na, ni, nf, ns));
            assert(expr_wf(es, na, ni, nf, ns));
            let eab = Expr::Sum(Box::new(ea), Box::new(eb));
            assert(expr_wf(eab, na, ni, nf, ns));
            let enc = Expr::Negated(Box::new(ec));
            assert(expr_wf(enc, na, ni, nf, ns));
            let inner = Expr::Sum(Box::new(eab), Box::new(enc));
            assert(expr_wf(inner, na, ni, nf, ns));
            assert(expr_wf(Expr::Product(Box::new(es), Box::new(inner)), na, ni, nf, ns));
            assert(sum_poly(config) == Expr::Product(Box::new(es), Box::new(inner)));
        }
        meta.create_gate("a+b=c", polys);
        proof {
            assert(meta.advice_eq@ =~= old(meta).advice_eq@.push(false).push(false).push(true));
            assert(meta.instance_eq@ =~= old(meta).instance_eq@.push(true));
            assert(meta.gates@[old(meta).gates@.len() as int].polys@ =~= seq![sum_poly(config)]);
        }
        config
    }

    /// Registers the declared equality between the given assigned cell
    /// and slot 0 of the instance column: the public input there must
    /// carry the cell's value.
    pub fn enforce(&self, layout: &mut Layouter, v: AssignedCell) -> (r: Result<(), Error>)
        requires
            old(layout).wf(),
            sum_config_wf(self.config, old(layout).cs),
            v.cell.kind == ColumnKind::Advice,
            v.cell.col < old(layout).cs.num_advice(),
            v.cell.row < old(layout).asg.n,
            old(layout).cs.advice_eq@[v.cell.col as int],
        ensures
            final(layout).wf(),
            r == Ok::<(), Error>(()),
            final(layout).cs == old(layout).cs,
            final(layout).next_row == old(layout).next_row,
            final(layout).regions@ == old(layout).regions@,
            final(layout).in_region == old(layout).in_region,
            final(layout).asg.n == old(layout).asg.n,
            final(layout).asg.advice@ == old(layout).asg.advice@,
            final(layout).asg.fixed@ == old(layout).asg.fixed@,
            final(layout).asg.selectors@ == old(layout).asg.selectors@,
            final(layout).asg.copies@ == old(layout).asg.copies@.push(
                CopyConstraint {
                    left: v.cell,
                    right: Cell {
                        kind: ColumnKind::Instance,
                        col: self.config.out.index,
                        row: 0,
                    },
                },
            ),
    {
        layout.constrain_instance(v.cell, self.config.out, 0)
    }

    /// Places one region and fills its row: the selector on, `a` and
    /// `b` written as given, and `c` computed as their field sum.
    /// Fails with `MissingWitness`, and with the layouter unfinished,
    /// when either value is absent.
    pub fn assign(&self, layout: &mut Layouter, a: Option<Fp>, b: Option<Fp>) -> (r: Result<
        AssignedCell,
        Error,
    >)
        requires
            old(layout).wf(),
            !old(layout).in_region,
            old(layout).next_row < old(layout).asg.n,
            sum_config_wf(self.config, old(layout).cs),
            old(layout).asg.advice_opt(self.config.a.index as int, old(layout).next_row as int)
                is None,
            old(layout).asg.advice_opt(self.config.b.index as int, old(layout).next_row as int)
                is None,
            old(layout).asg.advice_opt(self.config.c.index as int, old(layout).next_row as int)
                is None,
            a is Some ==> a.unwrap().wf(),
            b is Some ==> b.unwrap().wf(),
        ensures
            final(layout).wf(),
            a is Some && b is Some ==> {
                &&& sum_assigned(
                    *old(layout),
                    *final(layout),
                    self.config,
                    a.unwrap(),
                    b.unwrap(),
                )
                &&& r is Ok
                &&& r.unwrap().cell == (Cell {
                    kind: ColumnKind::Advice,
                    col: self.config.c.index,
                    row: old(layout).next_row,
                })
                &&& r.unwrap().value.wf()
                &&& r.unwrap().value@ == f_add(a.unwrap()@, b.unwrap()@)
            },
            a is None || b is None ==> r == Err::<AssignedCell, Error>(Error::MissingWitness),
    {
        let c_val: Option<Fp> = match (a, b) {
            (Some(x), Some(y)) => Some(x.add(y)),
            _ => None,
        };
        layout.begin_region();
        layout.enable_selector(self.config.s, 0);
        let _a_cell = match layout.assign_advice(self.config.a, 0, a) {
            Ok(cell) => cell,
            Err(e) => {
                return Err(e);
            },
        };
        let _b_cell = match layout.assign_advice(self.config.b, 0, b) {
            Ok(cell) => cell,
            Err(e) => {
                return Err(e);
            },
        };
        let c_cell = match layout.assign_advice(self.config.c, 0, c_val) {
            Ok(cell) => cell,
            Err(e) => {
                return Err(e);
            },
        };
        layout.end_region();
        Ok(c_cell)
    }
}

/// The sum-check circuit: two optional witness values whose sum is
/// exposed as public input number zero.
pub struct APlusBEqCCircuit {
    pub a: Option<Fp>,
    pub b: Option<Fp>,
}

/// Exactly what a successful synthesis does to a fresh layouter: three
/// single-row regions each holding `a`, `b`, `a + b` under the active
/// selector, and one copy constraint tying the last region's `c` cell
/// to slot 0 of the instance column.
pub open spec fn sum_synthesized(
    l0: Layouter,
    l1: Layouter,
    c: APlusBEqCConfig,
    av: Fp,
    bv: Fp,
) -> bool {
    let base = l0.next_row as int;
    &&& l1.cs == l0.cs
    &&& l1.next_row == l0.next_row + 3
    &&& l1.in_region == false
    &&& l1.asg.n == l0.asg.n
    &&& forall|k: int|
        0 <= k < 3 ==> (#[trigger] l1.asg.advice_opt(c.a.index as int, base + k)) == Some(av)
    &&& forall|k: int|
        0 <= k < 3 ==> (#[trigger] l1.asg.advice_opt(c.b.index as int, base + k)) == Some(bv)
    &&& forall|k: int|
        0 <= k < 3 ==> (#[trigger] l1.asg.advice_opt(c.c.index as int, base + k)) is Some
            && l1.asg.advice_val(c.c.index as int, base + k) == f_add(av@, bv@)
    &&& forall|c2: int, r2: int|
        0 <= c2 < l0.cs.num_advice() && 0 <= r2 < l0.asg.n && !(base <= r2 < base + 3 && (c2
            == c.a.index || c2 == c.b.index || c2 == c.c.index)) ==> l1.asg.advice_opt(c2, r2)
            == l0.asg.advice_opt(c2, r2)
    &&& forall|k: int| 0 <= k < 3 ==> #[trigger] l1.asg.sel_on(c.s.index as int, base + k)
    &&& forall|s2: int, r2: int|
        0 <= s2 < l0.cs.num_selectors && 0 <= r2 < l0.asg.n && !(s2 == c.s.index && base <= r2
            < base + 3) ==> l1.asg.sel_on(s2, r2) == l0.asg.sel_on(s2, r2)
    &&& l1.asg.fixed@ == l0.asg.fixed@
    &&& l1.asg.copies@ == l0.asg.copies@.push(
        CopyConstraint {
            left: Cell {
                kind: ColumnKind::Advice,
                col: c.c.index,
                row: (l0.next_row + 2) as usize,
            },
            right: Cell { kind: ColumnKind::Instance, col: c.out.index, row: 0 },
        },
    )
}

impl APlusBEqCCircuit {
    /// The same circuit with the witness dropped, as used for a dry
    /// configuration pass.
    pub fn without_witnesses(&self) -> (r: Self)
        ensures
            r.a is None,
            r.b is None,
    {
        APlusBEqCCircuit { a: None, b: None }
    }

    /// Declares the circuit's shape.
    pub fn configure(meta: &mut ConstraintSystem) -> (c: APlusBEqCConfig)
        requires
            old(meta).wf(),
            old(meta).num_selectors < usize::MAX,
        ensures
            final(meta).wf(),
            sum_configured(*old(meta), *final(meta), c),
            sum_config_wf(c, *final(meta)),
    {
        APlusBEqCChip::configure(meta)
    }

    /// Fills three fresh rows with this circuit's witness and exposes
    /// the last row's sum as public input number zero.
    pub fn synthesize(&self, config: APlusBEqCConfig, layouter: &mut Layouter) -> (r: Result<
        (),
        Error,
    >)
        requires
            old(layouter).wf(),
            !old(layouter).in_region,
            old(layouter).next_row + 3 <= old(layouter).asg.n,
            sum_config_wf(config, old(layouter).cs),
            forall|r2: int|
                old(layouter).next_row <= r2 < old(layouter).next_row + 3 ==> old(
                    layouter,
                ).asg.advice_opt(config.a.index as int, r2) is None && old(
                    layouter,
                ).asg.advice_opt(config.b.index as int, r2) is None && old(
                    layouter,
                ).asg.advice_opt(config.c.index as int, r2) is None,
            self.a is Some ==> self.a.unwrap().wf(),
            self.b is Some ==> self.b.unwrap().wf(),
        ensures
            final(layouter).wf(),
            self.a is Some && self.b is Some ==> r == Ok::<(), Error>(()) && sum_synthesized(
                *old(layouter),
                *final(layouter),
                config,
                self.a.unwrap(),
                self.b.unwrap(),
            ),
            self.a is None || self.b is None ==> r == Err::<(), Error>(Error::MissingWitness),
    {
        let chip = APlusBEqCChip::construct(config);
        let _first = match chip.assign(layouter, self.a, self.b) {
            Ok(cell) => cell,
            Err(e) => {
                return Err(e);
            },
        };
        let _second = match chip.assign(layouter, self.a, self.b) {
            Ok(cell) => cell,
            Err(e) => {
                return Err(e);
            },
        };
        let after = match chip.assign(layouter, self.a, self.b) {
            Ok(cell) => cell,
            Err(e) => {
                return Err(e);
            },
        };
        chip.enforce(layouter, after)
    }
}

/// Idempotent configuration: two configuration passes over the same
/// starting description yield the same handles and structurally
/// identical descriptions.
pub proof fn lemma_sum_configure_deterministic(
    pre: ConstraintSystem,
    post1: ConstraintSystem,
    c1: APlusBEqCConfig,
    post2: ConstraintSystem,
    c2: APlusBEqCConfig,
)
    requires
        sum_configured(pre, post1, c1),
        sum_configured(pre, post2, c2),
    ensures
        c1 == c2,
        post1.equivalent(post2),
{
    assert forall|i: int|
        0 <= i < post1.gates@.len() implies (#[trigger] post1.gates@[i]).name@
        == post2.gates@[i].name@ && post1.gates@[i].polys@ == post2.gates@[i].polys@ by {
        if i < pre.gates@.len() {
            assert(post1.gates@[i] == pre.gates@[i]);
            assert(post2.gates@[i] == pre.gates@[i]);
        }
    }
}

/// Completeness and soundness of the sum-check circuit: once configured
/// from an empty description and synthesized on a fresh grid from
/// witness values `a` and `b`, the circuit is satisfied by a public
/// input vector exactly when slot 0 of its instance column carries the
/// field sum `a + b`.
pub proof fn lemma_sum_circuit_iff(
    pre: ConstraintSystem,
    cs: ConstraintSystem,
    cfg: APlusBEqCConfig,
    l0: Layouter,
    l1: Layouter,
    av: Fp,
    bv: Fp,
    inst: Vec<Vec<Fp>>,
)
    requires
        pre.num_advice() == 0,
        pre.num_instance() == 0,
        pre.num_fixed == 0,
        pre.num_selectors == 0,
        pre.gates@.len() == 0,
        sum_configured(pre, cs, cfg),
        l0.wf(),
        l0.cs == cs,
        l0.next_row == 0,
        l0.asg.n >= 3,
        l0.asg.copies@.len() == 0,
        forall|c2: int, r2: int|
            0 <= c2 < cs.num_advice() && 0 <= r2 < l0.asg.n ==> (#[trigger] l0.asg.advice_opt(
                c2,
                r2,
            )) is None,
        forall|s2: int, r2: int|
            0 <= s2 < cs.num_selectors && 0 <= r2 < l0.asg.n ==> !(#[trigger] l0.asg.sel_on(
                s2,
                r2,
            )),
        sum_synthesized(l0, l1, cfg, av, bv),
        av.wf(),
        bv.wf(),
        inst_wf(inst, cs, l1.asg.n as int),
    ensures
        satisfied(cs, l1.asg, inst) <==> inst_val(inst, cfg.out.index as int, 0)
            == f_add(av@, bv@),
{
    let n = l1.asg.n as int;
    let asg = l1.asg;
    assert(cs.gates@.len() == 1);
    assert(cs.gates@[0].polys@.len() == 1);
    assert(cs.gates@[0].polys@[0] == sum_poly(cfg));

    assert(asg.copies@.len() == 1);
    let cc = asg.copies@[0];
    assert(cc.left == (Cell { kind: ColumnKind::Advice, col: cfg.c.index, row: 2usize }));
    assert(asg.advice_opt(cfg.c.index as int, 2) is Some);
    assert(cell_value(asg, inst, cc.left) == f_add(av@, bv@));
    assert(cell_value(asg, inst, cc.right) == inst_val(inst, cfg.out.index as int, 0));

    assert forall|row: int| 0 <= row < n implies eval(sum_poly(cfg), asg, inst, row) == 0 by {
        lemma_abs_row_zero(row, n);
        let es = Expr::Selector { sel: cfg.s.index };
        let ea = Expr::Advice { col: cfg.a.index, rot: 0i32 };
        let eb = Expr::Advice { col: cfg.b.index, rot: 0i32 };
        let ec = Expr::Advice { col: cfg.c.index, rot: 0i32 };
        let eab = Expr::Sum(Box::new(ea), Box::new(eb));
        let enc = Expr::Negated(Box::new(ec));
        let inner = Expr::Sum(Box::new(eab), Box::new(enc));
        assert(sum_poly(cfg) == Expr::Product(Box::new(es), Box::new(inner)));
        assert(eval(ea, asg, inst, row) == asg.advice_val(cfg.a.index as int, row));
        assert(eval(eb, asg, inst, row) == asg.advice_val(cfg.b.index as int, row));
        assert(eval(ec, asg, inst, row) == asg.advice_val(cfg.c.index as int, row));
        if 0 <= row < 3 {
            assert(asg.sel_on(cfg.s.index as int, row));
            assert(eval(es, asg, inst, row) == 1);
            assert(asg.advice_opt(cfg.a.index as int, row) == Some(av));
            assert(asg.advice_val(cfg.a.index as int, row) == av@);
            assert(asg.advice_opt(cfg.b.index as int, row) == Some(bv));
            assert(asg.advice_val(cfg.b.index as int, row) == bv@);
            assert(asg.advice_opt(cfg.c.index as int, row) is Some);
            assert(asg.advice_val(cfg.c.index as int, row) == f_add(av@, bv@));
            let s_ab = f_add(av@, bv@);
            lemma_mod_bound(av@ + bv@, MODULUS as int);
            assert(eval(eab, asg, inst, row) == s_ab);
            assert(eval(enc, asg, inst, row) == f_neg(s_ab));
            assert(eval(inner, asg, inst, row) == f_add(s_ab, f_neg(s_ab)));
            lemma_f_add_neg(s_ab);
            assert(eval(sum_poly(cfg), asg, inst, row) == f_mul(1, 0));
            lemma_f_mul_zero(1);
        } else {
            assert(asg.sel_on(cfg.s.index as int, row) == l0.asg.sel_on(cfg.s.index as int, row));
            assert(!asg.sel_on(cfg.s.index as int, row));
            assert(eval(es, asg, inst, row) == 0);
            assert(eval(sum_poly(cfg), asg, inst, row) == f_mul(
                0,
                eval(inner, asg, inst, row),
            ));
            lemma_f_mul_zero(eval(inner, asg, inst, row));
        }
    }

    if inst_val(inst, cfg.out.index as int, 0) == f_add(av@, bv@) {
        assert forall|g: int, p: int, row: int|
            0 <= g < cs.gates@.len() && 0 <= p < cs.gates@[g].polys@.len() && 0 <= row < asg.n
                implies gate_ok(cs, asg, inst, g, p, row) by {
            assert(g == 0 && p == 0);
        }
        assert forall|i: int| 0 <= i < asg.copies@.len() implies copy_ok(asg, inst, i) by {
            assert(i == 0);
        }
        assert(satisfied(cs, asg, inst));
    } else {
        assert(!copy_ok(asg, inst, 0));
        assert(!satisfied(cs, asg, inst));
    }
}

} // verus!
