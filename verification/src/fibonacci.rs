//! The recurrence circuit: each row holds three cells `(a, b, c)` with
//! `c = a + b` under a gate holding `s * (a + b - c)`; each later row copies
//! the previous row's 2nd and 3rd cells into its 1st and 2nd columns,
//! so the grid unrolls a Fibonacci-style recurrence.  The two seeds and
//! the final value are exposed as public inputs.

use crate::expression::{expr_wf, Expr};
use crate::field::{f_add, Fp};
use crate::layout::{
    AssignedCell, Cell, ColumnKind, CopyConstraint, Error, Layouter, PlacedRegion,
};
use crate::system::{AdviceColumn, ConstraintSystem, InstanceColumn, Selector};
use vstd::prelude::*;

verus! {

/// The linear recurrence in the field: term 0 is `a`, term 1 is `b`,
/// and every later term is the field sum of the previous two.
pub open spec fn fib_val(a: int, b: int, k: nat) -> int
    decreases k,
{
    if k == 0 {
        a
    } else if k == 1 {
        b
    } else {
        f_add(fib_val(a, b, (k - 2) as nat), fib_val(a, b, (k - 1) as nat))
    }
}

/// The shape of the recurrence circuit: three advice columns, the
/// gate's selector, and the instance column for the exposed values.
#[derive(Clone, Copy, Debug)]
pub struct FiboConfig {
    pub advice: [AdviceColumn; 3],
    pub selector: Selector,
    pub instance: InstanceColumn,
}

/// A handle to one assigned cell of the recurrence grid.
#[derive(Clone, Copy, PartialEq, Eq, Structural, Debug)]
pub struct ACell(pub AssignedCell);

/// The address of one of the three advice cells at a row.
pub open spec fn advice_cell(cfg: FiboConfig, which: int, row: int) -> Cell {
    Cell { kind: ColumnKind::Advice, col: cfg.advice[which].index, row: row as usize }
}

/// The address of one instance slot.
pub open spec fn inst_cell(cfg: FiboConfig, row: int) -> Cell {
    Cell { kind: ColumnKind::Instance, col: cfg.instance.index, row: row as usize }
}

/// The circuit's gate polynomial `s * (a + b - c)`.
pub open spec fn fib_poly(c: FiboConfig) -> Expr {
    Expr::Product(
        Box::new(Expr::Selector { sel: c.selector.index }),
        Box::new(
            Expr::Sum(
                Box::new(
                    Expr::Sum(
                        Box::new(Expr::Advice { col: c.advice[0].index, rot: 0 }),
                        Box::new(Expr::Advice { col: c.advice[1].index, rot: 0 }),
                    ),
                ),
                Box::new(
                    Expr::Negated(Box::new(Expr::Advice { col: c.advice[2].index, rot: 0 })),
                ),
            ),
        ),
    )
}

/// Exactly what configuration adds to a description: three fresh
/// equality-enabled advice columns, one equality-enabled instance
/// column, one selector, and one gate holding `s * (a + b - c)`.
pub open spec fn fib_configured(
    pre: ConstraintSystem,
    post: ConstraintSystem,
    c: FiboConfig,
) -> bool {
    &&& c.advice[0].index == pre.num_advice()
    &&& c.advice[1].index == pre.num_advice() + 1
    &&& c.advice[2].index == pre.num_advice() + 2
    &&& c.selector.index == pre.num_selectors
    &&& c.instance.index == pre.num_instance()
    &&& post.advice_eq@ == pre.advice_eq@.push(true).push(true).push(true)
    &&& post.instance_eq@ == pre.instance_eq@.push(true)
    &&& post.num_fixed == pre.num_fixed
    &&& post.num_selectors == pre.num_selectors + 1
    &&& post.gates@.len() == pre.gates@.len() + 1
    &&& forall|i: int| 0 <= i < pre.gates@.len() ==> post.gates@[i] == pre.gates@[i]
    &&& post.gates@[pre.gates@.len() as int].name@ == "add"@
    &&& post.gates@[pre.gates@.len() as int].polys@ =~= seq![fib_poly(c)]
}

/// The configuration fits the description it came from, with every
/// column the copies need flagged for equality.
pub open spec fn fib_config_wf(c: FiboConfig, cs: ConstraintSystem) -> bool {
    &&& c.advice[0].index < cs.num_advice()
    &&& c.advice[1].index < cs.num_advice()
    &&& c.advice[2].index < cs.num_advice()
    &&& c.advice[0].index != c.advice[1].index
    &&& c.advice[0].index != c.advice[2].index
    &&& c.advice[1].index != c.advice[2].index
    &&& cs.advice_eq@[c.advice[0].index as int]
    &&& cs.advice_eq@[c.advice[1].index as int]
    &&& cs.advice_eq@[c.advice[2].index as int]
    &&& c.instance.index < cs.num_instance()
    &&& cs.instance_eq@[c.instance.index as int]
    &&& c.selector.index < cs.num_selectors
}

/// Exactly what assigning the seed row does to a fresh row: one
/// single-row region at the old cursor, the selector on, the three
/// cells carrying `a`, `b` and `a + b`, and nothing else of the grid
/// moved.
pub open spec fn fib_first_assigned(
    l0: Layouter,
    l1: Layouter,
    c: FiboConfig,
    av: Fp,
    bv: Fp,
) -> bool {
    let base = l0.next_row as int;
    &&& l1.cs == l0.cs
    &&& l1.next_row == l0.next_row + 1
    &&& l1.in_region == false
    &&& l1.regions@ == l0.regions@.push(PlacedRegion { base: l0.next_row, rows: 1 })
    &&& l1.asg.n == l0.asg.n
    &&& l1.asg.advice_opt(c.advice[0].index as int, base) == Some(av)
    &&& l1.asg.advice_opt(c.advice[1].index as int, base) == Some(bv)
    &&& l1.asg.advice_opt(c.advice[2].index as int, base) is Some
    &&& l1.asg.advice_val(c.advice[2].index as int, base) == f_add(av@, bv@)
    &&& forall|c2: int, r2: int|
        0 <= c2 < l0.cs.num_advice() && 0 <= r2 < l0.asg.n && !(r2 == base && (c2
            == c.advice[0].index || c2 == c.advice[1].index || c2 == c.advice[2].index))
            ==> l1.asg.advice_opt(c2, r2) == l0.asg.advice_opt(c2, r2)
    &&& l1.asg.sel_on(c.selector.index as int, base)
    &&& forall|s2: int, r2: int|
        0 <= s2 < l0.cs.num_selectors && 0 <= r2 < l0.asg.n && !(s2 == c.selector.index && r2
            == base) ==> l1.asg.sel_on(s2, r2) == l0.asg.sel_on(s2, r2)
    &&& l1.asg.fixed@ == l0.asg.fixed@
    &&& l1.asg.copies@ == l0.asg.copies@
}

/// Exactly what one recurrence step does to a fresh row: one
/// single-row region at the old cursor, the selector on, the previous
/// cells' values copied into the 1st and 2nd columns with the two copy
/// constraints registered, their field sum in the 3rd column, and
/// nothing else of the grid moved.
pub open spec fn fib_step_assigned(
    l0: Layouter,
    l1: Layouter,
    c: FiboConfig,
    pb: AssignedCell,
    pc: AssignedCell,
) -> bool {
    let base = l0.next_row as int;
    &&& l1.cs == l0.cs
    &&& l1.next_row == l0.next_row + 1
    &&& l1.in_region == false
    &&& l1.regions@ == l0.regions@.push(PlacedRegion { base: l0.next_row, rows: 1 })
    &&& l1.asg.n == l0.asg.n
    &&& l1.asg.advice_opt(c.advice[0].index as int, base) == Some(pb.value)
    &&& l1.asg.advice_opt(c.advice[1].index as int, base) == Some(pc.value)
    &&& l1.asg.advice_opt(c.advice[2].index as int, base) is Some
    &&& l1.asg.advice_val(c.advice[2].index as int, base) == f_add(pb.value@, pc.value@)
    &&& forall|c2: int, r2: int|
        0 <= c2 < l0.cs.num_advice() && 0 <= r2 < l0.asg.n && !(r2 == base && (c2
            == c.advice[0].index || c2 == c.advice[1].index || c2 == c.advice[2].index))
            ==> l1.asg.advice_opt(c2, r2) == l0.asg.advice_opt(c2, r2)
    &&& l1.asg.sel_on(c.selector.index as int, base)
    &&& forall|s2: int, r2: int|
        0 <= s2 < l0.cs.num_selectors && 0 <= r2 < l0.asg.n && !(s2 == c.selector.index && r2
            == base) ==> l1.asg.sel_on(s2, r2) == l0.asg.sel_on(s2, r2)
    &&& l1.asg.fixed@ == l0.asg.fixed@
    &&& l1.asg.copies@ == l0.asg.copies@.push(
        CopyConstraint { left: pb.cell, right: advice_cell(c, 0, base) },
    ).push(CopyConstraint { left: pc.cell, right: advice_cell(c, 1, base) })
}

/// The copy constraint that synthesis registers at position `off` of
/// the fifteen it adds: the two seed exposures, then two copies per
/// recurrence step, then the exposure of the final value.
pub open spec fn fib_copy_at(cfg: FiboConfig, base: int, off: int) -> CopyConstraint {
    if off == 0 {
        CopyConstraint { left: advice_cell(cfg, 0, base), right: inst_cell(cfg, 0) }
    } else if off == 1 {
        CopyConstraint { left: advice_cell(cfg, 1, base), right: inst_cell(cfg, 1) }
    } else if off == 14 {
        CopyConstraint { left: advice_cell(cfg, 2, base + 6), right: inst_cell(cfg, 2) }
    } else {
        let m = (off - 2) / 2 + 1;
        if (off - 2) % 2 == 0 {
            CopyConstraint {
                left: if m == 1 {
                    advice_cell(cfg, 1, base)
                } else {
                    advice_cell(cfg, 2, base + m - 2)
                },
                right: advice_cell(cfg, 0, base + m),
            }
        } else {
            CopyConstraint {
                left: advice_cell(cfg, 2, base + m - 1),
                right: advice_cell(cfg, 1, base + m),
            }
        }
    }
}

/// Exactly what a successful synthesis does to the grid: seven
/// single-row regions whose columns carry three offset copies of the
/// recurrence, the selector on at each of those rows, and fifteen copy
/// constraints — the seed exposures, the step copies, and the exposure
/// of the final value.
pub open spec fn fib_synthesized(
    l0: Layouter,
    l1: Layouter,
    cfg: FiboConfig,
    av: Fp,
    bv: Fp,
) -> bool {
    let base = l0.next_row as int;
    &&& l1.cs == l0.cs
    &&& l1.next_row == l0.next_row + 7
    &&& l1.in_region == false
    &&& l1.asg.n == l0.asg.n
    &&& forall|k: int|
        0 <= k < 7 ==> (#[trigger] l1.asg.advice_opt(cfg.advice[0].index as int, base + k))
            is Some && l1.asg.advice_val(cfg.advice[0].index as int, base + k) == fib_val(
            av@,
            bv@,
            k as nat,
        )
    &&& forall|k: int|
        0 <= k < 7 ==> (#[trigger] l1.asg.advice_opt(cfg.advice[1].index as int, base + k))
            is Some && l1.asg.advice_val(cfg.advice[1].index as int, base + k) == fib_val(
            av@,
            bv@,
            (k + 1) as nat,
        )
    &&& forall|k: int|
        0 <= k < 7 ==> (#[trigger] l1.asg.advice_opt(cfg.advice[2].index as int, base + k))
            is Some && l1.asg.advice_val(cfg.advice[2].index as int, base + k) == fib_val(
            av@,
            bv@,
            (k + 2) as nat,
        )
    &&& forall|c2: int, r2: int|
        0 <= c2 < l0.cs.num_advice() && 0 <= r2 < l0.asg.n && !(base <= r2 < base + 7 && (c2
            == cfg.advice[0].index || c2 == cfg.advice[1].index || c2 == cfg.advice[2].index))
            ==> l1.asg.advice_opt(c2, r2) == l0.asg.advice_opt(c2, r2)
    &&& forall|k: int| 0 <= k < 7 ==> #[trigger] l1.asg.sel_on(cfg.selector.index as int, base + k)
    &&& forall|s2: int, r2: int|
        0 <= s2 < l0.cs.num_selectors && 0 <= r2 < l0.asg.n && !(s2 == cfg.selector.index && base
            <= r2 < base + 7) ==> l1.asg.sel_on(s2, r2) == l0.asg.sel_on(s2, r2)
    &&& l1.asg.fixed@ == l0.asg.fixed@
    &&& l1.asg.copies@.len() == l0.asg.copies@.len() + 15
    &&& forall|i: int| 0 <= i < l0.asg.copies@.len() ==> l1.asg.copies@[i] == l0.asg.copies@[i]
    &&& forall|off: int|
        0 <= off < 15 ==> l1.asg.copies@[l0.asg.copies@.len() + off] == fib_copy_at(
            cfg,
            base,
            off,
        )
}

/// The chip of the recurrence circuit.
pub struct FiboChip {
    pub config: FiboConfig,
}

impl FiboChip {
    /// Wraps a configuration.
    pub fn construct(config: FiboConfig) -> (r: Self)
        ensures
            r.config == config,
    {
        Self { config }
    }

    /// Declares the circuit's shape: three equality-enabled advice
    /// columns, an equality-enabled instance column, a selector, and
    /// a gate holding `s * (a + b - c)`.
    pub fn configure(meta: &mut ConstraintSystem) -> (c: FiboConfig)
        requires
            old(meta).wf(),
            old(meta).num_selectors < usize::MAX,
        ensures
            final(meta).wf(),
            fib_configured(*old(meta), *final(meta), c),
            fib_config_wf(c, *final(meta)),
    {
        let col_a = meta.advice_column();
        let col_b = meta.advice_column();
        let col_c = meta.advice_column();
        let selector = meta.selector();
        let instance = meta.instance_column();

        meta.enable_equality(col_a);
        meta.enable_equality(col_b);
        meta.enable_equality(col_c);
        meta.enable_instance_equality(instance);

        let config = FiboConfig { advice: [col_a, col_b, col_c], selector, instance };
        let s = meta.query_selector(selector);
        let a = meta.query_advice(col_a, 0);
        let b = meta.query_advice(col_b, 0);
        let c = meta.query_advice(col_c, 0);
        let mut polys: Vec<Expr> = Vec::new();
        polys.push(s.times(a.plus(b).minus(c)));
        proof {
            assert(config.advice[0] == col_a);
            assert(config.advice[1] == col_b);
            assert(config.advice[2] == col_c);
            assert(polys@[0] == fib_poly(config));
            let na = meta.num_advice();
            let ni = meta.num_instance();
            let nf = meta.num_fixed as int;
            let ns = meta.num_selectors as int;
            let ea = Expr::Advice { col: config.advice[0].index, rot: 0i32 };
            let eb = Expr::Advice { col: config.advice[1].index, rot: 0i32 };
            let ec = Expr::Advice { col: config.advice[2].index, rot: 0i32 };
            let es = Expr::Selector { sel: config.selector.index };
            assert(expr_wf(ea, na, ni, nf, ns));
            assert(expr_wf(eb, na, ni, nf, ns));
            assert(expr_wf(ec, na, ni, nf, ns));
            assert(expr_wf(es, na, ni, nf, ns));
            let eab = Expr::Sum(Box::new(ea), Box::new(eb));
            assert(expr_wf(eab, na, ni, nf, ns));
            let enc = Expr::Negated(Box::new(ec));
            assert(expr_wf(enc, na, ni, nf, ns));
            let inner = Expr::Sum(Box::new(eab), Box::new(enc));
            assert(expr_wf(inner, na, ni, nf, ns));
            assert(expr_wf(Expr::Product(Box::new(es), Box::new(inner)), na, ni, nf, ns));
            assert(fib_poly(config) == Expr::Product(Box::new(es), Box::new(inner)));
        }
        meta.create_gate("add", polys);
        proof {
            assert(meta.advice_eq@ =~= old(meta).advice_eq@.push(true).push(true).push(true));
            assert(meta.instance_eq@ =~= old(meta).instance_eq@.push(true));
            assert(meta.gates@[old(meta).gates@.len() as int].polys@ =~= seq![fib_poly(config)]);
        }
        config
    }

    /// Registers the declared equality between an assigned cell and the
    /// given slot of the instance column.
    pub fn expose_public(&self, layouter: &mut Layouter, cell: &ACell, raw: usize) -> (r: Result<
        (),
        Error,
    >)
        requires
            old(layouter).wf(),
            fib_config_wf(self.config, old(layouter).cs),
            cell.0.cell.kind == ColumnKind::Advice,
            cell.0.cell.col < old(layouter).cs.num_advice(),
            cell.0.cell.row < old(layouter).asg.n,
            old(layouter).cs.advice_eq@[cell.0.cell.col as int],
            raw < old(layouter).asg.n,
        ensures
            final(layouter).wf(),
            r == Ok::<(), Error>(()),
            final(layouter).cs == old(layouter).cs,
            final(layouter).next_row == old(layouter).next_row,
            final(layouter).in_region == old(layouter).in_region,
            final(layouter).regions@ == old(layouter).regions@,
            final(layouter).asg.n == old(layouter).asg.n,
            final(layouter).asg.advice@ == old(layouter).asg.advice@,
            final(layouter).asg.fixed@ == old(layouter).asg.fixed@,
            final(layouter).asg.selectors@ == old(layouter).asg.selectors@,
            final(layouter).asg.copies@ == old(layouter).asg.copies@.push(
                CopyConstraint {
                    left: cell.0.cell,
                    right: Cell {
                        kind: ColumnKind::Instance,
                        col: self.config.instance.index,
                        row: raw,
                    },
                },
            ),
    {
        layouter.constrain_instance(cell.0.cell, self.config.instance, raw)
    }

    /// Places one region for a recurrence step: copies the two source
    /// cells into the 1st and 2nd columns, registering the two copy
    /// constraints, and writes their field sum into the 3rd.
    pub fn assign_new_raw(&self, layouter: &mut Layouter, prev_b: &ACell, prev_c: &ACell) -> (r:
        Result<ACell, Error>)
        requires
            old(layouter).wf(),
            !old(layouter).in_region,
            old(layouter).next_row < old(layouter).asg.n,
            fib_config_wf(self.config, old(layouter).cs),
            prev_b.0.cell.kind == ColumnKind::Advice,
            prev_b.0.cell.col < old(layouter).cs.num_advice(),
            prev_b.0.cell.row < old(layouter).asg.n,
            old(layouter).cs.advice_eq@[prev_b.0.cell.col as int],
            old(layouter).asg.advice_opt(prev_b.0.cell.col as int, prev_b.0.cell.row as int)
                == Some(prev_b.0.value),
            prev_b.0.value.wf(),
            prev_c.0.cell.kind == ColumnKind::Advice,
            prev_c.0.cell.col < old(layouter).cs.num_advice(),
            prev_c.0.cell.row < old(layouter).asg.n,
            old(layouter).cs.advice_eq@[prev_c.0.cell.col as int],
            old(layouter).asg.advice_opt(prev_c.0.cell.col as int, prev_c.0.cell.row as int)
                == Some(prev_c.0.value),
            prev_c.0.value.wf(),
            old(layouter).asg.advice_opt(
                self.config.advice[0].index as int,
                old(layouter).next_row as int,
            ) is None,
            old(layouter).asg.advice_opt(
                self.config.advice[1].index as int,
                old(layouter).next_row as int,
            ) is None,
            old(layouter).asg.advice_opt(
                self.config.advice[2].index as int,
                old(layouter).next_row as int,
            ) is None,
        ensures
            final(layouter).wf(),
            fib_step_assigned(*old(layouter), *final(layouter), self.config, prev_b.0, prev_c.0),
            r is Ok,
            r.unwrap().0.cell == advice_cell(
                self.config,
                2,
                old(layouter).next_row as int,
            ),
            r.unwrap().0.value.wf(),
            r.unwrap().0.value@ == f_add(prev_b.0.value@, prev_c.0.value@),
            final(layouter).asg.advice_opt(
                self.config.advice[2].index as int,
                old(layouter).next_row as int,
            ) == Some(r.unwrap().0.value),
    {
        layouter.begin_region();
        layouter.enable_selector(self.config.selector, 0);
        match layouter.copy_advice(&prev_b.0, self.config.advice[0], 0) {
            Ok(_) => {},
            Err(e) => {
                return Err(e);
            },
        };
        match layouter.copy_advice(&prev_c.0, self.config.advice[1], 0) {
            Ok(_) => {},
            Err(e) => {
                return Err(e);
            },
        };
        let c_val = prev_b.0.value.add(prev_c.0.value);
        let c_cell = match layouter.assign_advice(self.config.advice[2], 0, Some(c_val)) {
            Ok(cell) => cell,
            Err(e) => {
                return Err(e);
            },
        };
        layouter.end_region();
        Ok(ACell(c_cell))
    }

    /// Places the seed region: the selector on and the three cells
    /// carrying `a`, `b` and their field sum.  Fails with
    /// `MissingWitness`, and with the layouter unfinished, when either
    /// seed is absent.
    pub fn assign_first_row(&self, layouter: &mut Layouter, a: Option<Fp>, b: Option<Fp>) -> (r:
        Result<(ACell, ACell, ACell), Error>)
        requires
            old(layouter).wf(),
            !old(layouter).in_region,
            old(layouter).next_row < old(layouter).asg.n,
            fib_config_wf(self.config, old(layouter).cs),
            old(layouter).asg.advice_opt(
                self.config.advice[0].index as int,
                old(layouter).next_row as int,
            ) is None,
            old(layouter).asg.advice_opt(
                self.config.advice[1].index as int,
                old(layouter).next_row as int,
            ) is None,
            old(layouter).asg.advice_opt(
                self.config.advice[2].index as int,
                old(layouter).next_row as int,
            ) is None,
            a is Some ==> a.unwrap().wf(),
            b is Some ==> b.unwrap().wf(),
        ensures
            final(layouter).wf(),
            a is Some && b is Some ==> {
                &&& fib_first_assigned(
                    *old(layouter),
                    *final(layouter),
                    self.config,
                    a.unwrap(),
                    b.unwrap(),
                )
                &&& r is Ok
                &&& r.unwrap().0.0 == (AssignedCell {
                    cell: advice_cell(self.config, 0, old(layouter).next_row as int),
                    value: a.unwrap(),
                })
                &&& r.unwrap().1.0 == (AssignedCell {
                    cell: advice_cell(self.config, 1, old(layouter).next_row as int),
                    value: b.unwrap(),
                })
                &&& r.unwrap().2.0.cell == advice_cell(
                    self.config,
                    2,
                    old(layouter).next_row as int,
                )
                &&& r.unwrap().2.0.value.wf()
                &&& r.unwrap().2.0.value@ == f_add(a.unwrap()@, b.unwrap()@)
                &&& final(layouter).asg.advice_opt(
                    self.config.advice[2].index as int,
                    old(layouter).next_row as int,
                ) == Some(r.unwrap().2.0.value)
            },
            a is None || b is None ==> r == Err::<(ACell, ACell, ACell), Error>(
                Error::MissingWitness,
            ),
    {
        let c_val: Option<Fp> = match (a, b) {
            (Some(x), Some(y)) => Some(x.add(y)),
            _ => None,
        };
        layouter.begin_region();
        layouter.enable_selector(self.config.selector, 0);
        let a_cell = match layouter.assign_advice(self.config.advice[0], 0, a) {
            Ok(cell) => cell,
            Err(e) => {
                return Err(e);
            },
        };
        let b_cell = match layouter.assign_advice(self.config.advice[1], 0, b) {
            Ok(cell) => cell,
            Err(e) => {
                return Err(e);
            },
        };
        let c_cell = match layouter.assign_advice(self.config.advice[2], 0, c_val) {
            Ok(cell) => cell,
            Err(e) => {
                return Err(e);
            },
        };
        layouter.end_region();
        Ok((ACell(a_cell), ACell(b_cell), ACell(c_cell)))
    }
}

/// The recurrence circuit: the two optional seed values.
#[derive(Clone, Copy, PartialEq, Eq, Structural, Debug)]
pub struct MyCircuit {
    pub a: Option<Fp>,
    pub b: Option<Fp>,
}

impl MyCircuit {
    /// The same circuit with the witness dropped, as used for a dry
    /// configuration pass.
    pub fn without_witnesses(&self) -> (r: Self)
        ensures
            r.a is None,
            r.b is None,
    {
        MyCircuit { a: None, b: None }
    }

    /// Declares the circuit's shape.
    pub fn configure(meta: &mut ConstraintSystem) -> (c: FiboConfig)
        requires
            old(meta).wf(),
            old(meta).num_selectors < usize::MAX,
        ensures
            final(meta).wf(),
            fib_configured(*old(meta), *final(meta), c),
            fib_config_wf(c, *final(meta)),
    {
        FiboChip::configure(meta)
    }

    /// Fills seven fresh rows with the unrolled recurrence: the seed
    /// row, then six steps each copying the previous row's 2nd and 3rd
    /// cells, and exposes the seeds and the final value as public
    /// inputs 0, 1 and 2.
    pub fn synthesize(&self, config: FiboConfig, layouter: &mut Layouter) -> (r: Result<
        (),
        Error,
    >)
        requires
            old(layouter).wf(),
            !old(layouter).in_region,
            old(layouter).next_row + 7 <= old(layouter).asg.n,
            fib_config_wf(config, old(layouter).cs),
            forall|w: int, r2: int|
                0 <= w < 3 && old(layouter).next_row <= r2 < old(layouter).next_row + 7 ==> (
                #[trigger] old(layouter).asg.advice_opt(config.advice[w].index as int, r2))
                    is None,
            self.a is Some ==> self.a.unwrap().wf(),
            self.b is Some ==> self.b.unwrap().wf(),
        ensures
            final(layouter).wf(),
            self.a is Some && self.b is Some ==> r == Ok::<(), Error>(()) && fib_synthesized(
                *old(layouter),
                *final(layouter),
                config,
                self.a.unwrap(),
                self.b.unwrap(),
            ),
            self.a is None || self.b is None ==> r == Err::<(), Error>(Error::MissingWitness),
    {
        let ghost l0 = *layouter;
        let ghost base = l0.next_row as int;
        let chip = FiboChip::construct(config);
        let first = match chip.assign_first_row(layouter, self.a, self.b) {
            Ok(t) => t,
            Err(e) => {
                return Err(e);
            },
        };
        let (a_cell, b_cell, c_cell) = first;
        let ghost av = self.a.unwrap();
        let ghost bv = self.b.unwrap();
        proof {
            assert(fib_val(av@, bv@, 0) == av@);
            assert(fib_val(av@, bv@, 1) == bv@);
            assert(fib_val(av@, bv@, 2) == f_add(av@, bv@));
        }
        match chip.expose_public(layouter, &a_cell, 0) {
            Ok(_) => {},
            Err(e) => {
                return Err(e);
            },
        };
        match chip.expose_public(layouter, &b_cell, 1) {
            Ok(_) => {},
            Err(e) => {
                return Err(e);
            },
        };
        let mut prev_b = b_cell;
        let mut prev_c = c_cell;
        let mut i: usize = 3;
        while i < 9
            invariant
                3 <= i <= 9,
                chip.config == config,
                self.a == Some(av),
                self.b == Some(bv),
                av.wf(),
                bv.wf(),
                l0.wf(),
                l0.next_row + 7 <= l0.asg.n,
                base == l0.next_row as int,
                fib_config_wf(config, l0.cs),
                forall|w: int, r2: int|
                    0 <= w < 3 && base <= r2 < base + 7 ==> (#[trigger] l0.asg.advice_opt(
                        config.advice[w].index as int,
                        r2,
                    )) is None,
                layouter.wf(),
                !layouter.in_region,
                layouter.cs == l0.cs,
                layouter.asg.n == l0.asg.n,
                layouter.next_row == base + (i - 2),
                forall|k: int|
                    0 <= k < i - 2 ==> (#[trigger] layouter.asg.advice_opt(
                        config.advice[0].index as int,
                        base + k,
                    )) is Some && layouter.asg.advice_val(config.advice[0].index as int, base + k)
                        == fib_val(av@, bv@, k as nat),
                forall|k: int|
                    0 <= k < i - 2 ==> (#[trigger] layouter.asg.advice_opt(
                        config.advice[1].index as int,
                        base + k,
                    )) is Some && layouter.asg.advice_val(config.advice[1].index as int, base + k)
                        == fib_val(av@, bv@, (k + 1) as nat),
                forall|k: int|
                    0 <= k < i - 2 ==> (#[trigger] layouter.asg.advice_opt(
                        config.advice[2].index as int,
                        base + k,
                    )) is Some && layouter.asg.advice_val(config.advice[2].index as int, base + k)
                        == fib_val(av@, bv@, (k + 2) as nat),
                forall|c2: int, r2: int|
                    0 <= c2 < l0.cs.num_advice() && 0 <= r2 < l0.asg.n && !(base <= r2 < base + (i
                        - 2) && (c2 == config.advice[0].index || c2 == config.advice[1].index || c2
                        == config.advice[2].index)) ==> layouter.asg.advice_opt(c2, r2)
                        == l0.asg.advice_opt(c2, r2),
                forall|k: int|
                    0 <= k < i - 2 ==> #[trigger] layouter.asg.sel_on(
                        config.selector.index as int,
                        base + k,
                    ),
                forall|s2: int, r2: int|
                    0 <= s2 < l0.cs.num_selectors && 0 <= r2 < l0.asg.n && !(s2
                        == config.selector.index && base <= r2 < base + (i - 2))
                        ==> layouter.asg.sel_on(s2, r2) == l0.asg.sel_on(s2, r2),
                layouter.asg.fixed@ == l0.asg.fixed@,
                layouter.asg.copies@.len() == l0.asg.copies@.len() + 2 + 2 * (i - 3),
                forall|j: int|
                    0 <= j < l0.asg.copies@.len() ==> #[trigger] layouter.asg.copies@[j]
                        == l0.asg.copies@[j],
                forall|off: int|
                    0 <= off < 2 + 2 * (i - 3) ==> #[trigger] layouter.asg.copies@[l0.asg.copies@.len()
                        + off] == fib_copy_at(config, base, off),
                prev_b.0.value.wf(),
                prev_b.0.value@ == fib_val(av@, bv@, (i - 2) as nat),
                prev_b.0.cell == if i == 3 {
                    advice_cell(config, 1, base)
                } else {
                    advice_cell(config, 2, base + i - 4)
                },
                layouter.asg.advice_opt(prev_b.0.cell.col as int, prev_b.0.cell.row as int)
                    == Some(prev_b.0.value),
                prev_c.0.value.wf(),
                prev_c.0.value@ == fib_val(av@, bv@, (i - 1) as nat),
                prev_c.0.cell == advice_cell(config, 2, base + i - 3),
                layouter.asg.advice_opt(prev_c.0.cell.col as int, prev_c.0.cell.row as int)
                    == Some(prev_c.0.value),
            decreases 9 - i,
        {
            proof {
                let m = i as int - 2;
                assert(l0.asg.advice_opt(config.advice[0].index as int, base + m) is None);
                assert(l0.asg.advice_opt(config.advice[1].index as int, base + m) is None);
                assert(l0.asg.advice_opt(config.advice[2].index as int, base + m) is None);
                assert(layouter.asg.advice_opt(config.advice[0].index as int, base + m)
                    == l0.asg.advice_opt(config.advice[0].index as int, base + m));
                assert(layouter.asg.advice_opt(config.advice[1].index as int, base + m)
                    == l0.asg.advice_opt(config.advice[1].index as int, base + m));
                assert(layouter.asg.advice_opt(config.advice[2].index as int, base + m)
                    == l0.asg.advice_opt(config.advice[2].index as int, base + m));
            }
            let new_c = match chip.assign_new_raw(layouter, &prev_b, &prev_c) {
                Ok(cell) => cell,
                Err(e) => {
                    return Err(e);
                },
            };
            proof {
                let m = i - 2;
                assert(fib_val(av@, bv@, (m + 2) as nat) == f_add(
                    fib_val(av@, bv@, m as nat),
                    fib_val(av@, bv@, (m + 1) as nat),
                ));
                assert(fib_copy_at(config, base, 2 + 2 * (i - 3)) == (CopyConstraint {
                    left: prev_b.0.cell,
                    right: advice_cell(config, 0, base + m),
                }));
                assert(fib_copy_at(config, base, 3 + 2 * (i - 3)) == (CopyConstraint {
                    left: prev_c.0.cell,
                    right: advice_cell(config, 1, base + m),
                }));
            }
            prev_b = prev_c;
            prev_c = new_c;
            i = i + 1;
        }
        let ghost l_exit = *layouter;
        match chip.expose_public(layouter, &prev_c, 2) {
            Ok(_) => {},
            Err(e) => {
                return Err(e);
            },
        };
        proof {
            assert(fib_copy_at(config, base, 14) == (CopyConstraint {
                left: prev_c.0.cell,
                right: inst_cell(config, 2),
            }));
            assert(layouter.asg.advice@ == l_exit.asg.advice@);
            assert(layouter.asg.selectors@ == l_exit.asg.selectors@);
            assert forall|k: int| 0 <= k < 7 implies (#[trigger] layouter.asg.advice_opt(
                config.advice[0].index as int,
                base + k,
            )) is Some && layouter.asg.advice_val(config.advice[0].index as int, base + k)
                == fib_val(av@, bv@, k as nat) by {
                assert(l_exit.asg.advice_opt(config.advice[0].index as int, base + k) is Some);
            }
            assert forall|k: int| 0 <= k < 7 implies (#[trigger] layouter.asg.advice_opt(
                config.advice[1].index as int,
                base + k,
            )) is Some && layouter.asg.advice_val(config.advice[1].index as int, base + k)
                == fib_val(av@, bv@, (k + 1) as nat) by {
                assert(l_exit.asg.advice_opt(config.advice[1].index as int, base + k) is Some);
            }
            assert forall|k: int| 0 <= k < 7 implies (#[trigger] layouter.asg.advice_opt(
                config.advice[2].index as int,
                base + k,
            )) is Some && layouter.asg.advice_val(config.advice[2].index as int, base + k)
                == fib_val(av@, bv@, (k + 2) as nat) by {
                assert(l_exit.asg.advice_opt(config.advice[2].index as int, base + k) is Some);
            }
            assert forall|c2: int, r2: int|
                0 <= c2 < l0.cs.num_advice() && 0 <= r2 < l0.asg.n && !(base <= r2 < base + 7 && (
                c2 == config.advice[0].index || c2 == config.advice[1].index || c2
                    == config.advice[2].index)) implies layouter.asg.advice_opt(c2, r2)
                == l0.asg.advice_opt(c2, r2) by {
                assert(l_exit.asg.advice_opt(c2, r2) == l0.asg.advice_opt(c2, r2));
            }
            assert forall|k: int| 0 <= k < 7 implies #[trigger] layouter.asg.sel_on(
                config.selector.index as int,
                base + k,
            ) by {
                assert(l_exit.asg.sel_on(config.selector.index as int, base + k));
            }
            assert forall|s2: int, r2: int|
                0 <= s2 < l0.cs.num_selectors && 0 <= r2 < l0.asg.n && !(s2
                    == config.selector.index && base <= r2 < base + 7) implies layouter.asg.sel_on(
                s2,
                r2,
            ) == l0.asg.sel_on(s2, r2) by {
                assert(l_exit.asg.sel_on(s2, r2) == l0.asg.sel_on(s2, r2));
            }
            assert forall|j: int| 0 <= j < l0.asg.copies@.len() implies layouter.asg.copies@[j]
                == l0.asg.copies@[j] by {
                assert(l_exit.asg.copies@[j] == l0.asg.copies@[j]);
            }
            assert forall|off: int| 0 <= off < 15 implies layouter.asg.copies@[l0.asg.copies@.len()
                + off] == fib_copy_at(config, base, off) by {
                if off < 14 {
                    assert(l_exit.asg.copies@[l0.asg.copies@.len() + off] == fib_copy_at(
                        config,
                        base,
                        off,
                    ));
                    assert(layouter.asg.copies@[l0.asg.copies@.len() + off]
                        == l_exit.asg.copies@[l0.asg.copies@.len() + off]);
                }
            }
        }
        Ok(())
    }
}

/// Idempotent configuration: two configuration passes over the same
/// starting description yield the same handles and structurally
/// identical descriptions.
pub proof fn lemma_fib_configure_deterministic(
    pre: ConstraintSystem,
    post1: ConstraintSystem,
    c1: FiboConfig,
    post2: ConstraintSystem,
    c2: FiboConfig,
)
    requires
        fib_configured(pre, post1, c1),
        fib_configured(pre, post2, c2),
    ensures
        c1.advice[0] == c2.advice[0],
        c1.advice[1] == c2.advice[1],
        c1.advice[2] == c2.advice[2],
        c1.selector == c2.selector,
        c1.instance == c2.instance,
        post1.equivalent(post2),
{
    assert forall|i: int|
        0 <= i < post1.gates@.len() implies (#[trigger] post1.gates@[i]).name@
        == post2.gates@[i].name@ && post1.gates@[i].polys@ == post2.gates@[i].polys@ by {
        if i < pre.gates@.len() {
            assert(post1.gates@[i] == pre.gates@[i]);
            assert(post2.gates@[i] == pre.gates@[i]);
        } else {
            assert(fib_poly(c1) == fib_poly(c2));
        }
    }
}

/// Copy-constraint propagation: after synthesis of the recurrence
/// circuit, the values of each region's 2nd and 3rd cells reappear
/// unchanged as the next region's 1st and 2nd cells, and the copy
/// constraints carrying them are registered.
pub proof fn lemma_fib_propagation(
    l0: Layouter,
    l1: Layouter,
    cfg: FiboConfig,
    av: Fp,
    bv: Fp,
    k: int,
)
    requires
        fib_synthesized(l0, l1, cfg, av, bv),
        0 <= k < 6,
    ensures
        l1.asg.advice_val(cfg.advice[0].index as int, l0.next_row + k + 1) == l1.asg.advice_val(
            cfg.advice[1].index as int,
            l0.next_row + k,
        ),
        l1.asg.advice_val(cfg.advice[1].index as int, l0.next_row + k + 1) == l1.asg.advice_val(
            cfg.advice[2].index as int,
            l0.next_row + k,
        ),
{
    let base = l0.next_row as int;
    assert(l1.asg.advice_opt(cfg.advice[0].index as int, base + (k + 1)) is Some);
    assert(l1.asg.advice_opt(cfg.advice[1].index as int, base + (k + 1)) is Some);
    assert(l1.asg.advice_opt(cfg.advice[1].index as int, base + k) is Some);
    assert(l1.asg.advice_opt(cfg.advice[2].index as int, base + k) is Some);
}

} // verus!
