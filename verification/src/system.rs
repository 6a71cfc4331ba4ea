//! The compile-time half of a circuit: column, selector and gate
//! declarations, accumulated during the configuration pass, before any
//! witness exists.

use crate::expression::{expr_wf, lemma_expr_wf_monotone, Expr};
use vstd::prelude::*;

verus! {

/// A handle to a private witness column.
#[derive(Clone, Copy, PartialEq, Eq, Structural, Debug)]
pub struct AdviceColumn {
    pub index: usize,
}

/// A handle to a public input column.
#[derive(Clone, Copy, PartialEq, Eq, Structural, Debug)]
pub struct InstanceColumn {
    pub index: usize,
}

/// A handle to a column of compile-time constants.
#[derive(Clone, Copy, PartialEq, Eq, Structural, Debug)]
pub struct FixedColumn {
    pub index: usize,
}

/// A handle to a boolean per-row toggle that activates gates.
#[derive(Clone, Copy, PartialEq, Eq, Structural, Debug)]
pub struct Selector {
    pub index: usize,
}

/// A named set of polynomials that must all evaluate to zero at every
/// row of the grid.
pub struct Gate {
    pub name: String,
    pub polys: Vec<Expr>,
}

/// The description a configuration pass accumulates: how many columns
/// and selectors exist, which columns may join copy constraints, and the
/// declared gates.  It carries no witness data.
pub struct ConstraintSystem {
    /// One entry per advice column: whether it may join copy constraints.
    pub advice_eq: Vec<bool>,
    /// One entry per instance column: whether it may join copy constraints.
    pub instance_eq: Vec<bool>,
    /// The number of fixed columns.
    pub num_fixed: usize,
    /// The number of selectors.
    pub num_selectors: usize,
    /// The declared gates, in declaration order.
    pub gates: Vec<Gate>,
}

impl ConstraintSystem {
    /// The number of advice columns.
    pub open spec fn num_advice(self) -> int {
        self.advice_eq@.len() as int
    }

    /// The number of instance columns.
    pub open spec fn num_instance(self) -> int {
        self.instance_eq@.len() as int
    }

    /// Every polynomial of `g` queries only declared columns and
    /// selectors.
    pub open spec fn gate_wf(self, g: Gate) -> bool {
        forall|p: int|
            0 <= p < g.polys@.len() ==> expr_wf(
                #[trigger] g.polys@[p],
                self.num_advice(),
                self.num_instance(),
                self.num_fixed as int,
                self.num_selectors as int,
            )
    }

    /// Every declared gate queries only declared columns and selectors.
    pub open spec fn wf(self) -> bool {
        forall|i: int| 0 <= i < self.gates@.len() ==> self.gate_wf(#[trigger] self.gates@[i])
    }

    /// Two descriptions are structurally identical: the same column
    /// counts in the same order, the same equality flags, and the same
    /// gates.
    pub open spec fn equivalent(self, other: ConstraintSystem) -> bool {
        &&& self.advice_eq@ == other.advice_eq@
        &&& self.instance_eq@ == other.instance_eq@
        &&& self.num_fixed == other.num_fixed
        &&& self.num_selectors == other.num_selectors
        &&& self.gates@.len() == other.gates@.len()
        &&& forall|i: int|
            0 <= i < self.gates@.len() ==> (#[trigger] self.gates@[i]).name@
                == other.gates@[i].name@ && self.gates@[i].polys@ == other.gates@[i].polys@
    }

    /// An empty description: no columns, no selectors, no gates.
    pub fn new() -> (r: ConstraintSystem)
        ensures
            r.wf(),
            r.num_advice() == 0,
            r.num_instance() == 0,
            r.num_fixed == 0,
            r.num_selectors == 0,
            r.gates@.len() == 0,
    {
        ConstraintSystem {
            advice_eq: Vec::new(),
            instance_eq: Vec::new(),
            num_fixed: 0,
            num_selectors: 0,
            gates: Vec::new(),
        }
    }

    /// Declares a fresh advice column, not yet equality-enabled.
    pub fn advice_column(&mut self) -> (c: AdviceColumn)
        ensures
            c.index == old(self).num_advice(),
            final(self).advice_eq@ == old(self).advice_eq@.push(false),
            final(self).instance_eq@ == old(self).instance_eq@,
            final(self).num_fixed == old(self).num_fixed,
            final(self).num_selectors == old(self).num_selectors,
            final(self).gates@ == old(self).gates@,
            old(self).wf() ==> final(self).wf(),
    {
        let index = self.advice_eq.len();
        self.advice_eq.push(false);
        proof {
            if old(self).wf() {
                assert forall|i: int| 0 <= i < self.gates@.len() implies self.gate_wf(
                    #[trigger] self.gates@[i],
                ) by {
                    let g = self.gates@[i];
                    assert(old(self).gate_wf(g));
                    assert forall|p: int| 0 <= p < g.polys@.len() implies expr_wf(
                        #[trigger] g.polys@[p],
                        self.num_advice(),
                        self.num_instance(),
                        self.num_fixed as int,
                        self.num_selectors as int,
                    ) by {
                        lemma_expr_wf_monotone(
                            g.polys@[p],
                            old(self).num_advice(),
                            old(self).num_instance(),
                            old(self).num_fixed as int,
                            old(self).num_selectors as int,
                            self.num_advice(),
                            self.num_instance(),
                            self.num_fixed as int,
                            self.num_selectors as int,
                        );
                    }
                }
            }
        }
        AdviceColumn { index }
    }

    /// Declares a fresh instance column, not yet equality-enabled.
    pub fn instance_column(&mut self) -> (c: InstanceColumn)
        ensures
            c.index == old(self).num_instance(),
            final(self).instance_eq@ == old(self).instance_eq@.push(false),
            final(self).advice_eq@ == old(self).advice_eq@,
            final(self).num_fixed == old(self).num_fixed,
            final(self).num_selectors == old(self).num_selectors,
            final(self).gates@ == old(self).gates@,
            old(self).wf() ==> final(self).wf(),
    {
        let index = self.instance_eq.len();
        self.instance_eq.push(false);
        proof {
            if old(self).wf() {
                assert forall|i: int| 0 <= i < self.gates@.len() implies self.gate_wf(
                    #[trigger] self.gates@[i],
                ) by {
                    let g = self.gates@[i];
                    assert(old(self).gate_wf(g));
                    assert forall|p: int| 0 <= p < g.polys@.len() implies expr_wf(
                        #[trigger] g.polys@[p],
                        self.num_advice(),
                        self.num_instance(),
                        self.num_fixed as int,
                        self.num_selectors as int,
                    ) by {
                        lemma_expr_wf_monotone(
                            g.polys@[p],
                            old(self).num_advice(),
                            old(self).num_instance(),
                            old(self).num_fixed as int,
                            old(self).num_selectors as int,
                            self.num_advice(),
                            self.num_instance(),
                            self.num_fixed as int,
                            self.num_selectors as int,
                        );
                    }
                }
            }
        }
        InstanceColumn { index }
    }

    /// Declares a fresh fixed column.
    pub fn fixed_column(&mut self) -> (c: FixedColumn)
        requires
            old(self).num_fixed < usize::MAX,
        ensures
            c.index == old(self).num_fixed,
            final(self).num_fixed == old(self).num_fixed + 1,
            final(self).advice_eq@ == old(self).advice_eq@,
            final(self).instance_eq@ == old(self).instance_eq@,
            final(self).num_selectors == old(self).num_selectors,
            final(self).gates@ == old(self).gates@,
            old(self).wf() ==> final(self).wf(),
    {
        let index = self.num_fixed;
        self.num_fixed = self.num_fixed + 1;
        proof {
            if old(self).wf() {
                assert forall|i: int| 0 <= i < self.gates@.len() implies self.gate_wf(
                    #[trigger] self.gates@[i],
                ) by {
                    let g = self.gates@[i];
                    assert(old(self).gate_wf(g));
                    assert forall|p: int| 0 <= p < g.polys@.len() implies expr_wf(
                        #[trigger] g.polys@[p],
                        self.num_advice(),
                        self.num_instance(),
                        self.num_fixed as int,
                        self.num_selectors as int,
                    ) by {
                        lemma_expr_wf_monotone(
                            g.polys@[p],
                            old(self).num_advice(),
                            old(self).num_instance(),
                            old(self).num_fixed as int,
                            old(self).num_selectors as int,
                            self.num_advice(),
                            self.num_instance(),
                            self.num_fixed as int,
                            self.num_selectors as int,
                        );
                    }
                }
            }
        }
        FixedColumn { index }
    }

    /// Declares a fresh selector.
    pub fn selector(&mut self) -> (s: Selector)
        requires
            old(self).num_selectors < usize::MAX,
        ensures
            s.index == old(self).num_selectors,
            final(self).num_selectors == old(self).num_selectors + 1,
            final(self).advice_eq@ == old(self).advice_eq@,
            final(self).instance_eq@ == old(self).instance_eq@,
            final(self).num_fixed == old(self).num_fixed,
            final(self).gates@ == old(self).gates@,
            old(self).wf() ==> final(self).wf(),
    {
        let index = self.num_selectors;
        self.num_selectors = self.num_selectors + 1;
        proof {
            if old(self).wf() {
                assert forall|i: int| 0 <= i < self.gates@.len() implies self.gate_wf(
                    #[trigger] self.gates@[i],
                ) by {
                    let g = self.gates@[i];
                    assert(old(self).gate_wf(g));
                    assert forall|p: int| 0 <= p < g.polys@.len() implies expr_wf(
                        #[trigger] g.polys@[p],
                        self.num_advice(),
                        self.num_instance(),
                        self.num_fixed as int,
                        self.num_selectors as int,
                    ) by {
                        lemma_expr_wf_monotone(
                            g.polys@[p],
                            old(self).num_advice(),
                            old(self).num_instance(),
                            old(self).num_fixed as int,
                            old(self).num_selectors as int,
                            self.num_advice(),
                            self.num_instance(),
                            self.num_fixed as int,
                            self.num_selectors as int,
                        );
                    }
                }
            }
        }
        Selector { index }
    }

    /// Flags an advice column as allowed to join copy constraints.
    pub fn enable_equality(&mut self, col: AdviceColumn)
        requires
            col.index < old(self).num_advice(),
        ensures
            final(self).advice_eq@ == old(self).advice_eq@.update(col.index as int, true),
            final(self).instance_eq@ == old(self).instance_eq@,
            final(self).num_fixed == old(self).num_fixed,
            final(self).num_selectors == old(self).num_selectors,
            final(self).gates@ == old(self).gates@,
            old(self).wf() ==> final(self).wf(),
    {
        self.advice_eq.set(col.index, true);
    }

    /// Flags an instance column as allowed to join copy constraints.
    pub fn enable_instance_equality(&mut self, col: InstanceColumn)
        requires
            col.index < old(self).num_instance(),
        ensures
            final(self).instance_eq@ == old(self).instance_eq@.update(col.index as int, true),
            final(self).advice_eq@ == old(self).advice_eq@,
            final(self).num_fixed == old(self).num_fixed,
            final(self).num_selectors == old(self).num_selectors,
            final(self).gates@ == old(self).gates@,
            old(self).wf() ==> final(self).wf(),
    {
        self.instance_eq.set(col.index, true);
    }

    /// A query of an advice cell, at the given row offset.
    pub fn query_advice(&self, col: AdviceColumn, rot: i32) -> (e: Expr)
        requires
            col.index < self.num_advice(),
        ensures
            e == (Expr::Advice { col: col.index, rot }),
    {
        Expr::Advice { col: col.index, rot }
    }

    /// A query of an instance cell, at the given row offset.
    pub fn query_instance(&self, col: InstanceColumn, rot: i32) -> (e: Expr)
        requires
            col.index < self.num_instance(),
        ensures
            e == (Expr::Instance { col: col.index, rot }),
    {
        Expr::Instance { col: col.index, rot }
    }

    /// A query of a selector, at the current row.
    pub fn query_selector(&self, s: Selector) -> (e: Expr)
        requires
            s.index < self.num_selectors,
        ensures
            e == (Expr::Selector { sel: s.index }),
    {
        Expr::Selector { sel: s.index }
    }

    /// Declares a gate: a named set of polynomials that must vanish at
    /// every row.  The polynomials may reference only declared columns
    /// and selectors — a malformed gate is a construction-time error,
    /// ruled out here rather than reported at runtime.
    pub fn create_gate(&mut self, name: &str, polys: Vec<Expr>)
        requires
            forall|p: int|
                0 <= p < polys@.len() ==> expr_wf(
                    #[trigger] polys@[p],
                    old(self).num_advice(),
                    old(self).num_instance(),
                    old(self).num_fixed as int,
                    old(self).num_selectors as int,
                ),
        ensures
            final(self).gates@.len() == old(self).gates@.len() + 1,
            final(self).gates@[old(self).gates@.len() as int].name@ == name@,
            final(self).gates@[old(self).gates@.len() as int].polys@ == polys@,
            forall|i: int|
                0 <= i < old(self).gates@.len() ==> final(self).gates@[i] == old(
                    self,
                ).gates@[i],
            final(self).advice_eq@ == old(self).advice_eq@,
            final(self).instance_eq@ == old(self).instance_eq@,
            final(self).num_fixed == old(self).num_fixed,
            final(self).num_selectors == old(self).num_selectors,
            old(self).wf() ==> final(self).wf(),
    {
        let gate = Gate { name: String::from_str(name), polys };
        self.gates.push(gate);
    }
}

} // verus!
