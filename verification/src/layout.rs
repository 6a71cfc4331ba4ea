//! The assignment-time half of a circuit: the grid of cells, the
//! layouter that places regions at disjoint row ranges, value
//! assignment, copy-constraint registration and instance exposure.

use crate::field::Fp;
use crate::system::{AdviceColumn, ConstraintSystem, FixedColumn, InstanceColumn, Selector};
use vstd::prelude::*;

verus! {

/// Which kind of column a cell belongs to.
#[derive(Clone, Copy, PartialEq, Eq, Structural, Debug)]
pub enum ColumnKind {
    Advice,
    Instance,
    Fixed,
}

/// The address of one grid slot: column kind, column index, absolute row.
#[derive(Clone, Copy, PartialEq, Eq, Structural, Debug)]
pub struct Cell {
    pub kind: ColumnKind,
    pub col: usize,
    pub row: usize,
}

/// A handle to an assigned cell together with the value written there.
#[derive(Clone, Copy, PartialEq, Eq, Structural, Debug)]
pub struct AssignedCell {
    pub cell: Cell,
    pub value: Fp,
}

/// An unordered pair of cells whose values are declared equal.
#[derive(Clone, Copy, PartialEq, Eq, Structural, Debug)]
pub struct CopyConstraint {
    pub left: Cell,
    pub right: Cell,
}

/// A failure during synthesis.  Synthesis errors are terminal for the
/// run: the caller gets the error instead of a partially trusted grid.
#[derive(Clone, Copy, PartialEq, Eq, Structural, Debug)]
pub enum Error {
    /// An assignment had no witness value to draw from.
    MissingWitness,
    /// A copy or exposure named a column that is not equality-enabled.
    InvalidEquality,
    /// A cell that already holds a value was assigned again.
    AlreadyAssigned,
}

/// A region already placed: its base row and how many rows it spans.
#[derive(Clone, Copy, PartialEq, Eq, Structural, Debug)]
pub struct PlacedRegion {
    pub base: usize,
    pub rows: usize,
}

/// The witness grid: one `Option<Fp>` slot per advice and fixed cell,
/// one boolean per selector and row, and the registered copy
/// constraints.  Instance values are not stored here; they are supplied
/// to the evaluator from outside.
pub struct Assignment {
    /// The number of rows of the grid.
    pub n: usize,
    /// Advice slots, indexed by column then row; `None` is unassigned.
    pub advice: Vec<Vec<Option<Fp>>>,
    /// Fixed slots, indexed by column then row; `None` is unassigned.
    pub fixed: Vec<Vec<Option<Fp>>>,
    /// Selector activations, indexed by selector then row.
    pub selectors: Vec<Vec<bool>>,
    /// The registered copy constraints, in registration order.
    pub copies: Vec<CopyConstraint>,
}

impl Assignment {
    /// The slot of an advice cell.
    pub open spec fn advice_opt(self, col: int, row: int) -> Option<Fp> {
        self.advice@[col]@[row]
    }

    /// The value of an advice cell; an unassigned cell reads as zero.
    pub open spec fn advice_val(self, col: int, row: int) -> int {
        match self.advice@[col]@[row] {
            Some(f) => f@,
            None => 0,
        }
    }

    /// The slot of a fixed cell.
    pub open spec fn fixed_opt(self, col: int, row: int) -> Option<Fp> {
        self.fixed@[col]@[row]
    }

    /// The value of a fixed cell; an unassigned cell reads as zero.
    pub open spec fn fixed_val(self, col: int, row: int) -> int {
        match self.fixed@[col]@[row] {
            Some(f) => f@,
            None => 0,
        }
    }

    /// Whether a selector is on at a row.
    pub open spec fn sel_on(self, s: int, row: int) -> bool {
        self.selectors@[s]@[row]
    }

    /// Whether a cell address lies inside the grid described by `cs`.
    pub open spec fn cell_in_range(self, cs: ConstraintSystem, cell: Cell) -> bool {
        cell.row < self.n && match cell.kind {
            ColumnKind::Advice => cell.col < cs.num_advice(),
            ColumnKind::Instance => cell.col < cs.num_instance(),
            ColumnKind::Fixed => cell.col < cs.num_fixed,
        }
    }

    /// Whether a cell's column was flagged for equality during
    /// configuration.
    pub open spec fn cell_eq_enabled(cs: ConstraintSystem, cell: Cell) -> bool {
        match cell.kind {
            ColumnKind::Advice => cs.advice_eq@[cell.col as int],
            ColumnKind::Instance => cs.instance_eq@[cell.col as int],
            ColumnKind::Fixed => false,
        }
    }

    /// The grid matches the description `cs`: the column counts agree,
    /// every inner vector spans all rows, every stored value is reduced,
    /// and every copy constraint joins in-range, equality-enabled cells.
    pub open spec fn wf(self, cs: ConstraintSystem) -> bool {
        &&& self.advice@.len() == cs.num_advice()
        &&& forall|c: int|
            0 <= c < self.advice@.len() ==> (#[trigger] self.advice@[c])@.len() == self.n
        &&& forall|c: int, r: int|
            0 <= c < self.advice@.len() && 0 <= r < self.n && self.advice@[c]@[r] is Some
                ==> (#[trigger] self.advice@[c]@[r]).unwrap().wf()
        &&& self.fixed@.len() == cs.num_fixed
        &&& forall|c: int|
            0 <= c < self.fixed@.len() ==> (#[trigger] self.fixed@[c])@.len() == self.n
        &&& forall|c: int, r: int|
            0 <= c < self.fixed@.len() && 0 <= r < self.n && self.fixed@[c]@[r] is Some
                ==> (#[trigger] self.fixed@[c]@[r]).unwrap().wf()
        &&& self.selectors@.len() == cs.num_selectors
        &&& forall|s: int|
            0 <= s < self.selectors@.len() ==> (#[trigger] self.selectors@[s])@.len() == self.n
        &&& forall|i: int|
            0 <= i < self.copies@.len() ==> {
                let cc = #[trigger] self.copies@[i];
                &&& self.cell_in_range(cs, cc.left)
                &&& self.cell_in_range(cs, cc.right)
                &&& Assignment::cell_eq_enabled(cs, cc.left)
                &&& Assignment::cell_eq_enabled(cs, cc.right)
            }
    }
}

/// The full delta of writing one advice cell: that slot now holds `v`,
/// and nothing else of the grid moved.
pub open spec fn advice_written(a: Assignment, b: Assignment, col: int, row: int, v: Fp) -> bool {
    &&& b.advice@.len() == a.advice@.len()
    &&& b.advice@[col]@ == a.advice@[col]@.update(row, Some(v))
    &&& forall|j: int|
        0 <= j < a.advice@.len() && j != col ==> (#[trigger] b.advice@[j])@ == a.advice@[j]@
    &&& b.fixed@ == a.fixed@
    &&& b.selectors@ == a.selectors@
    &&& b.copies@ == a.copies@
    &&& b.n == a.n
}

/// The full delta of writing one fixed cell.
pub open spec fn fixed_written(a: Assignment, b: Assignment, col: int, row: int, v: Fp) -> bool {
    &&& b.fixed@.len() == a.fixed@.len()
    &&& b.fixed@[col]@ == a.fixed@[col]@.update(row, Some(v))
    &&& forall|j: int|
        0 <= j < a.fixed@.len() && j != col ==> (#[trigger] b.fixed@[j])@ == a.fixed@[j]@
    &&& b.advice@ == a.advice@
    &&& b.selectors@ == a.selectors@
    &&& b.copies@ == a.copies@
    &&& b.n == a.n
}

/// The full delta of turning one selector on at one row.
pub open spec fn selector_written(a: Assignment, b: Assignment, s: int, row: int) -> bool {
    &&& b.selectors@.len() == a.selectors@.len()
    &&& b.selectors@[s]@ == a.selectors@[s]@.update(row, true)
    &&& forall|j: int|
        0 <= j < a.selectors@.len() && j != s ==> (#[trigger] b.selectors@[j])@ == a.selectors@[j]@
    &&& b.advice@ == a.advice@
    &&& b.fixed@ == a.fixed@
    &&& b.copies@ == a.copies@
    &&& b.n == a.n
}

/// The full delta of registering one copy constraint.
pub open spec fn copy_pushed(a: Assignment, b: Assignment, cc: CopyConstraint) -> bool {
    &&& b.copies@ == a.copies@.push(cc)
    &&& b.advice@ == a.advice@
    &&& b.fixed@ == a.fixed@
    &&& b.selectors@ == a.selectors@
    &&& b.n == a.n
}

/// The full delta of writing one advice cell and registering one copy
/// constraint in the same step.
pub open spec fn advice_copied(
    a: Assignment,
    b: Assignment,
    col: int,
    row: int,
    v: Fp,
    cc: CopyConstraint,
) -> bool {
    &&& b.advice@.len() == a.advice@.len()
    &&& b.advice@[col]@ == a.advice@[col]@.update(row, Some(v))
    &&& forall|j: int|
        0 <= j < a.advice@.len() && j != col ==> (#[trigger] b.advice@[j])@ == a.advice@[j]@
    &&& b.fixed@ == a.fixed@
    &&& b.selectors@ == a.selectors@
    &&& b.copies@ == a.copies@.push(cc)
    &&& b.n == a.n
}

/// Nothing outside the grid moved: the description, the cursor and the
/// placed regions are those of the old layouter.
pub open spec fn frame_unchanged(a: Layouter, b: Layouter) -> bool {
    &&& b.cs == a.cs
    &&& b.next_row == a.next_row
    &&& b.regions@ == a.regions@
    &&& b.in_region == a.in_region
}

/// The layouter: owns the circuit description and the grid, places
/// regions one after the other at strictly increasing base rows, and
/// performs all assignment-time operations.
pub struct Layouter {
    /// The configured circuit description.
    pub cs: ConstraintSystem,
    /// The grid being filled.
    pub asg: Assignment,
    /// The first row not claimed by any placed region.
    pub next_row: usize,
    /// The regions placed so far, in placement order.
    pub regions: Vec<PlacedRegion>,
    /// Whether a region is currently open; its base row is `next_row`.
    pub in_region: bool,
    /// The number of rows the open region has touched so far.
    pub region_rows: usize,
}

impl Layouter {
    /// The layouter invariant: the grid matches the description, placed
    /// regions sit pairwise disjoint below the cursor, and the open
    /// region fits in the grid.
    pub open spec fn wf(self) -> bool {
        &&& self.cs.wf()
        &&& self.asg.wf(self.cs)
        &&& self.asg.n >= 1
        &&& self.next_row <= self.asg.n
        &&& forall|i: int|
            0 <= i < self.regions@.len() ==> (#[trigger] self.regions@[i]).base
                + self.regions@[i].rows <= if i + 1 < self.regions@.len() {
                self.regions@[i + 1].base as int
            } else {
                self.next_row as int
            }
        &&& self.in_region ==> self.next_row + self.region_rows <= self.asg.n
        &&& !self.in_region ==> self.region_rows == 0
    }

    /// A fresh layouter over an all-unassigned grid of `n` rows shaped
    /// by the description `cs`.
    pub fn new(cs: ConstraintSystem, n: usize) -> (r: Layouter)
        requires
            cs.wf(),
            n >= 1,
        ensures
            r.wf(),
            r.cs == cs,
            r.asg.n == n,
            r.next_row == 0,
            r.regions@.len() == 0,
            r.in_region == false,
            forall|c: int, row: int|
                0 <= c < cs.num_advice() && 0 <= row < n ==> r.asg.advice_opt(c, row)
                    is None,
            forall|c: int, row: int|
                0 <= c < cs.num_fixed && 0 <= row < n ==> r.asg.fixed_opt(c, row) is None,
            forall|s: int, row: int|
                0 <= s < cs.num_selectors && 0 <= row < n ==> !r.asg.sel_on(s, row),
            r.asg.copies@.len() == 0,
    {
        let num_advice = cs.advice_eq.len();
        let num_fixed = cs.num_fixed;
        let num_selectors = cs.num_selectors;
        let advice = empty_value_grid(num_advice, n);
        let fixed = empty_value_grid(num_fixed, n);
        let selectors = empty_selector_grid(num_selectors, n);
        let asg = Assignment { n, advice, fixed, selectors, copies: Vec::new() };
        Layouter {
            cs,
            asg,
            next_row: 0,
            regions: Vec::new(),
            in_region: false,
            region_rows: 0,
        }
    }

    /// Opens a fresh region.  Its base row is the current cursor; cell
    /// addresses inside the region are offsets from that base.
    pub fn begin_region(&mut self)
        requires
            old(self).wf(),
            !old(self).in_region,
        ensures
            final(self).wf(),
            *final(self) == (Layouter { in_region: true, ..*old(self) }),
    {
        self.in_region = true;
    }

    /// Closes the open region and advances the cursor past every row
    /// the region touched, so that the next region cannot overlap it.
    pub fn end_region(&mut self)
        requires
            old(self).wf(),
            old(self).in_region,
        ensures
            final(self).wf(),
            final(self).cs == old(self).cs,
            final(self).asg == old(self).asg,
            final(self).next_row == old(self).next_row + old(self).region_rows,
            final(self).regions@ == old(self).regions@.push(
                PlacedRegion { base: old(self).next_row, rows: old(self).region_rows },
            ),
            final(self).in_region == false,
            final(self).region_rows == 0,
    {
        let placed = PlacedRegion { base: self.next_row, rows: self.region_rows };
        self.regions.push(placed);
        self.next_row = self.next_row + self.region_rows;
        self.region_rows = 0;
        self.in_region = false;
        proof {
            assert forall|i: int|
                0 <= i < self.regions@.len() implies (#[trigger] self.regions@[i]).base
                + self.regions@[i].rows <= if i + 1 < self.regions@.len() {
                self.regions@[i + 1].base as int
            } else {
                self.next_row as int
            } by {
                if i + 1 < self.regions@.len() {
                    assert(self.regions@[i] == old(self).regions@[i]);
                }
            }
        }
    }

    /// Marks `s` as on at the open region's base row plus `offset`.
    pub fn enable_selector(&mut self, s: Selector, offset: usize)
        requires
            old(self).wf(),
            old(self).in_region,
            s.index < old(self).cs.num_selectors,
            old(self).next_row + offset < old(self).asg.n,
        ensures
            final(self).wf(),
            frame_unchanged(*old(self), *final(self)),
            selector_written(
                old(self).asg,
                final(self).asg,
                s.index as int,
                old(self).next_row + offset,
            ),
            final(self).region_rows == if offset + 1 > old(self).region_rows {
                offset + 1
            } else {
                old(self).region_rows as int
            },
    {
        let row = self.next_row + offset;
        self.asg.selectors[s.index].set(row, true);
        if offset + 1 > self.region_rows {
            self.region_rows = offset + 1;
        }
    }

    /// Writes a witness value into an advice cell of the open region and
    /// returns a handle to the assigned cell.  Fails with
    /// `MissingWitness` when no value is supplied, and with
    /// `AlreadyAssigned` when the cell already holds a value; either
    /// failure leaves the layouter unchanged.
    pub fn assign_advice(&mut self, col: AdviceColumn, offset: usize, value: Option<Fp>) -> (r:
        Result<AssignedCell, Error>)
        requires
            old(self).wf(),
            old(self).in_region,
            col.index < old(self).cs.num_advice(),
            old(self).next_row + offset < old(self).asg.n,
            value is Some ==> value.unwrap().wf(),
        ensures
            final(self).wf(),
            value is None ==> r == Err::<AssignedCell, Error>(Error::MissingWitness) && *final(self)
                == *old(self),
            value is Some && old(self).asg.advice_opt(
                col.index as int,
                old(self).next_row + offset,
            ) is Some ==> r == Err::<AssignedCell, Error>(Error::AlreadyAssigned) && *final(self)
                == *old(self),
            value is Some && old(self).asg.advice_opt(
                col.index as int,
                old(self).next_row + offset,
            ) is None ==> {
                &&& r == Ok::<AssignedCell, Error>(
                    AssignedCell {
                        cell: Cell {
                            kind: ColumnKind::Advice,
                            col: col.index,
                            row: (old(self).next_row + offset) as usize,
                        },
                        value: value.unwrap(),
                    },
                )
                &&& frame_unchanged(*old(self), *final(self))
                &&& advice_written(
                    old(self).asg,
                    final(self).asg,
                    col.index as int,
                    old(self).next_row + offset,
                    value.unwrap(),
                )
                &&& final(self).region_rows == if offset + 1 > old(self).region_rows {
                    offset + 1
                } else {
                    old(self).region_rows as int
                }
            },
    {
        let v = match value {
            None => {
                return Err(Error::MissingWitness);
            },
            Some(v) => v,
        };
        let row = self.next_row + offset;
        let already = self.asg.advice[col.index][row].is_some();
        if already {
            return Err(Error::AlreadyAssigned);
        }
        self.asg.advice[col.index].set(row, Some(v));
        if offset + 1 > self.region_rows {
            self.region_rows = offset + 1;
        }
        Ok(
            AssignedCell {
                cell: Cell { kind: ColumnKind::Advice, col: col.index, row },
                value: v,
            },
        )
    }

    /// Writes a constant into a fixed cell of the open region.  Fails
    /// with `AlreadyAssigned` when the cell already holds a value.
    pub fn assign_fixed(&mut self, col: FixedColumn, offset: usize, value: Fp) -> (r: Result<
        (),
        Error,
    >)
        requires
            old(self).wf(),
            old(self).in_region,
            col.index < old(self).cs.num_fixed,
            old(self).next_row + offset < old(self).asg.n,
            value.wf(),
        ensures
            final(self).wf(),
            old(self).asg.fixed_opt(col.index as int, old(self).next_row + offset) is Some ==> r
                == Err::<(), Error>(Error::AlreadyAssigned) && *final(self) == *old(self),
            old(self).asg.fixed_opt(col.index as int, old(self).next_row + offset) is None ==> {
                &&& r == Ok::<(), Error>(())
                &&& frame_unchanged(*old(self), *final(self))
                &&& fixed_written(
                    old(self).asg,
                    final(self).asg,
                    col.index as int,
                    old(self).next_row + offset,
                    value,
                )
                &&& final(self).region_rows == if offset + 1 > old(self).region_rows {
                    offset + 1
                } else {
                    old(self).region_rows as int
                }
            },
    {
        let row = self.next_row + offset;
        let already = self.asg.fixed[col.index][row].is_some();
        if already {
            return Err(Error::AlreadyAssigned);
        }
        self.asg.fixed[col.index].set(row, Some(value));
        if offset + 1 > self.region_rows {
            self.region_rows = offset + 1;
        }
        Ok(())
    }

    /// Assigns the destination cell to the value of the already-assigned
    /// source cell and registers a copy constraint between the two.
    /// Fails with `InvalidEquality` when either column is not
    /// equality-enabled, and with `AlreadyAssigned` when the destination
    /// already holds a value; either failure leaves the layouter
    /// unchanged.
    pub fn copy_advice(&mut self, src: &AssignedCell, col: AdviceColumn, offset: usize) -> (r:
        Result<AssignedCell, Error>)
        requires
            old(self).wf(),
            old(self).in_region,
            col.index < old(self).cs.num_advice(),
            old(self).next_row + offset < old(self).asg.n,
            src.cell.kind == ColumnKind::Advice,
            src.cell.col < old(self).cs.num_advice(),
            src.cell.row < old(self).asg.n,
            old(self).asg.advice_opt(src.cell.col as int, src.cell.row as int) == Some(src.value),
        ensures
            final(self).wf(),
            !(old(self).cs.advice_eq@[src.cell.col as int] && old(self).cs.advice_eq@[col.index as int])
                ==> r == Err::<AssignedCell, Error>(Error::InvalidEquality) && *final(self) == *old(
                self,
            ),
            old(self).cs.advice_eq@[src.cell.col as int] && old(self).cs.advice_eq@[col.index as int]
                && old(self).asg.advice_opt(col.index as int, old(self).next_row + offset) is Some
                ==> r == Err::<AssignedCell, Error>(Error::AlreadyAssigned) && *final(self) == *old(
                self,
            ),
            old(self).cs.advice_eq@[src.cell.col as int] && old(self).cs.advice_eq@[col.index as int]
                && old(self).asg.advice_opt(col.index as int, old(self).next_row + offset) is None
                ==> {
                &&& r == Ok::<AssignedCell, Error>(
                    AssignedCell {
                        cell: Cell {
                            kind: ColumnKind::Advice,
                            col: col.index,
                            row: (old(self).next_row + offset) as usize,
                        },
                        value: src.value,
                    },
                )
                &&& frame_unchanged(*old(self), *final(self))
                &&& advice_copied(
                    old(self).asg,
                    final(self).asg,
                    col.index as int,
                    old(self).next_row + offset,
                    src.value,
                    CopyConstraint {
                        left: src.cell,
                        right: Cell {
                            kind: ColumnKind::Advice,
                            col: col.index,
                            row: (old(self).next_row + offset) as usize,
                        },
                    },
                )
                &&& final(self).region_rows == if offset + 1 > old(self).region_rows {
                    offset + 1
                } else {
                    old(self).region_rows as int
                }
            },
    {
        let src_ok = self.cs.advice_eq[src.cell.col];
        let dst_ok = self.cs.advice_eq[col.index];
        if !(src_ok && dst_ok) {
            return Err(Error::InvalidEquality);
        }
        let row = self.next_row + offset;
        let already = self.asg.advice[col.index][row].is_some();
        if already {
            return Err(Error::AlreadyAssigned);
        }
        proof {
            assert(old(self).asg.advice@[src.cell.col as int]@[src.cell.row as int].unwrap().wf());
        }
        self.asg.advice[col.index].set(row, Some(src.value));
        let dest = Cell { kind: ColumnKind::Advice, col: col.index, row };
        self.asg.copies.push(CopyConstraint { left: src.cell, right: dest });
        if offset + 1 > self.region_rows {
            self.region_rows = offset + 1;
        }
        Ok(AssignedCell { cell: dest, value: src.value })
    }

    /// Registers the declared equality between an assigned advice cell
    /// and a slot of an instance column: the public input supplied at
    /// that slot must carry the cell's value.  Fails with
    /// `InvalidEquality` when either column is not equality-enabled.
    /// May be called outside a region.
    pub fn constrain_instance(&mut self, cell: Cell, col: InstanceColumn, row: usize) -> (r: Result<
        (),
        Error,
    >)
        requires
            old(self).wf(),
            cell.kind == ColumnKind::Advice,
            cell.col < old(self).cs.num_advice(),
            cell.row < old(self).asg.n,
            col.index < old(self).cs.num_instance(),
            row < old(self).asg.n,
        ensures
            final(self).wf(),
            final(self).region_rows == old(self).region_rows,
            !(old(self).cs.advice_eq@[cell.col as int] && old(self).cs.instance_eq@[col.index as int])
                ==> r == Err::<(), Error>(Error::InvalidEquality) && *final(self) == *old(self),
            old(self).cs.advice_eq@[cell.col as int] && old(self).cs.instance_eq@[col.index as int]
                ==> {
                &&& r == Ok::<(), Error>(())
                &&& frame_unchanged(*old(self), *final(self))
                &&& copy_pushed(
                    old(self).asg,
                    final(self).asg,
                    CopyConstraint {
                        left: cell,
                        right: Cell { kind: ColumnKind::Instance, col: col.index, row },
                    },
                )
            },
    {
        let cell_ok = self.cs.advice_eq[cell.col];
        let col_ok = self.cs.instance_eq[col.index];
        if !(cell_ok && col_ok) {
            return Err(Error::InvalidEquality);
        }
        let target = Cell { kind: ColumnKind::Instance, col: col.index, row };
        self.asg.copies.push(CopyConstraint { left: cell, right: target });
        Ok(())
    }
}

/// Builds `cols` all-unassigned columns of `n` rows each.
fn empty_value_grid(cols: usize, n: usize) -> (r: Vec<Vec<Option<Fp>>>)
    ensures
        r@.len() == cols,
        forall|c: int| 0 <= c < cols ==> (#[trigger] r@[c])@.len() == n,
        forall|c: int, row: int| 0 <= c < cols && 0 <= row < n ==> (#[trigger] r@[c]@[row]) is None,
{
    let mut r: Vec<Vec<Option<Fp>>> = Vec::new();
    let mut c: usize = 0;
    while c < cols
        invariant
            c <= cols,
            r@.len() == c,
            forall|i: int| 0 <= i < c ==> (#[trigger] r@[i])@.len() == n,
            forall|i: int, row: int| 0 <= i < c && 0 <= row < n ==> (#[trigger] r@[i]@[row]) is None,
        decreases cols - c,
    {
        let mut column: Vec<Option<Fp>> = Vec::new();
        let mut row: usize = 0;
        while row < n
            invariant
                row <= n,
                column@.len() == row,
                forall|j: int| 0 <= j < row ==> (#[trigger] column@[j]) is None,
            decreases n - row,
        {
            column.push(None);
            row = row + 1;
        }
        r.push(column);
        c = c + 1;
    }
    r
}

/// Builds `cols` all-off selector columns of `n` rows each.
fn empty_selector_grid(cols: usize, n: usize) -> (r: Vec<Vec<bool>>)
    ensures
        r@.len() == cols,
        forall|c: int| 0 <= c < cols ==> (#[trigger] r@[c])@.len() == n,
        forall|c: int, row: int| 0 <= c < cols && 0 <= row < n ==> !(#[trigger] r@[c]@[row]),
{
    let mut r: Vec<Vec<bool>> = Vec::new();
    let mut c: usize = 0;
    while c < cols
        invariant
            c <= cols,
            r@.len() == c,
            forall|i: int| 0 <= i < c ==> (#[trigger] r@[i])@.len() == n,
            forall|i: int, row: int| 0 <= i < c && 0 <= row < n ==> !(#[trigger] r@[i]@[row]),
        decreases cols - c,
    {
        let mut column: Vec<bool> = Vec::new();
        let mut row: usize = 0;
        while row < n
            invariant
                row <= n,
                column@.len() == row,
                forall|j: int| 0 <= j < row ==> !(#[trigger] column@[j]),
            decreases n - row,
        {
            column.push(false);
            row = row + 1;
        }
        r.push(column);
        c = c + 1;
    }
    r
}

/// Regions are placed without overlap: any two placed regions cover
/// disjoint row ranges, the earlier one entirely below the later one.
pub proof fn lemma_regions_disjoint(l: Layouter, i: int, j: int)
    requires
        l.wf(),
        0 <= i < j < l.regions@.len(),
    ensures
        l.regions@[i].base + l.regions@[i].rows <= l.regions@[j].base,
    decreases j - i,
{
    if i + 1 == j {
    } else {
        lemma_regions_disjoint(l, i, j - 1);
    }
}

} // verus!
