//! The mock evaluator: given a description, a filled grid and a public
//! input vector, it re-evaluates every gate polynomial at every row and
//! every copy constraint, and returns the list of violated constraints.
//! An empty list means the witness satisfies the circuit.

use crate::expression::{expr_wf, Expr};
use crate::field::{f_add, f_mul, f_neg, Fp};
use crate::layout::{Assignment, Cell, ColumnKind};
use crate::system::ConstraintSystem;
use vstd::arithmetic::div_mod::{
    lemma_add_mod_noop, lemma_mod_add_multiples_vanish, lemma_mod_bound, lemma_small_mod,
    lemma_sub_mod_noop,
};
use vstd::prelude::*;

verus! {

/// The row a query at offset `rot` from `row` resolves to: offsets wrap
/// around the `n` rows of the grid.
pub open spec fn abs_row(row: int, rot: int, n: int) -> int {
    ((row + rot) % n + n) % n
}

/// A query at offset zero reads the current row.
pub proof fn lemma_abs_row_zero(row: int, n: int)
    requires
        0 < n,
        0 <= row < n,
    ensures
        abs_row(row, 0, n) == row,
{
    lemma_small_mod(row as nat, n as nat);
    lemma_mod_add_multiples_vanish(row, n);
}

/// For `m > 0`, reduction of a value in `[0, 2m)` modulo `m` is a
/// single conditional subtraction.
proof fn lemma_reduce_once(x: int, m: int)
    requires
        0 < m,
        0 <= x < 2 * m,
    ensures
        x % m == if x >= m {
            x - m
        } else {
            x
        },
{
    if x >= m {
        lemma_mod_add_multiples_vanish(x - m, m);
        lemma_small_mod((x - m) as nat, m as nat);
    } else {
        lemma_small_mod(x as nat, m as nat);
    }
}

/// Wrapping a value already in `[0, n)` is the identity.
proof fn lemma_mod_noop_small(x: int, n: int)
    requires
        0 < n,
        0 <= x < n,
    ensures
        (x + n) % n == x,
{
    lemma_mod_add_multiples_vanish(x, n);
    lemma_small_mod(x as nat, n as nat);
}

/// Resolves a row offset to an absolute row, wrapping around the grid.
fn resolve_row(row: usize, rot: i32, n: usize) -> (r: usize)
    requires
        row < n,
        n >= 1,
    ensures
        r < n,
        r as int == abs_row(row as int, rot as int, n as int),
{
    proof {
        lemma_mod_bound(row as int + rot as int, n as int);
        lemma_mod_noop_small((row as int + rot as int) % (n as int), n as int);
    }
    if rot >= 0 {
        let k: usize = ((rot as u64) % (n as u64)) as usize;
        proof {
            lemma_mod_bound(rot as int, n as int);
            lemma_add_mod_noop(row as int, rot as int, n as int);
            lemma_small_mod(row as nat, n as nat);
            lemma_reduce_once(row as int + k as int, n as int);
        }
        if row >= n - k {
            row - (n - k)
        } else {
            row + k
        }
    } else {
        let neg: u64 = (-(rot as i64)) as u64;
        let k: usize = (neg % (n as u64)) as usize;
        proof {
            lemma_mod_bound(neg as int, n as int);
            lemma_sub_mod_noop(row as int, neg as int, n as int);
            lemma_small_mod(row as nat, n as nat);
            if row >= k {
                lemma_small_mod((row - k) as nat, n as nat);
            } else {
                lemma_mod_add_multiples_vanish(row as int - k as int, n as int);
                lemma_small_mod((row as int - k as int + n as int) as nat, n as nat);
            }
        }
        if row >= k {
            row - k
        } else {
            row + (n - k)
        }
    }
}

/// The value of one slot of the public input vector.
pub open spec fn inst_val(inst: Vec<Vec<Fp>>, col: int, row: int) -> int {
    inst@[col]@[row]@
}

/// The public input vector matches the description: one column of `n`
/// reduced values per declared instance column.
pub open spec fn inst_wf(inst: Vec<Vec<Fp>>, cs: ConstraintSystem, n: int) -> bool {
    &&& inst@.len() == cs.num_instance()
    &&& forall|c: int| 0 <= c < inst@.len() ==> (#[trigger] inst@[c])@.len() == n
    &&& forall|c: int, r: int|
        0 <= c < inst@.len() && 0 <= r < n ==> (#[trigger] inst@[c]@[r]).wf()
}

/// The value of a gate polynomial at a row: constants and queried cells
/// combined with field arithmetic; a selector reads as one when on and
/// zero when off; an unassigned cell reads as zero.
pub open spec fn eval(e: Expr, asg: Assignment, inst: Vec<Vec<Fp>>, row: int) -> int
    decreases e,
{
    match e {
        Expr::Constant(f) => f@,
        Expr::Advice { col, rot } => asg.advice_val(
            col as int,
            abs_row(row, rot as int, asg.n as int),
        ),
        Expr::Instance { col, rot } => inst_val(
            inst,
            col as int,
            abs_row(row, rot as int, asg.n as int),
        ),
        Expr::Fixed { col, rot } => asg.fixed_val(
            col as int,
            abs_row(row, rot as int, asg.n as int),
        ),
        Expr::Selector { sel } => if asg.sel_on(sel as int, row) {
            1
        } else {
            0
        },
        Expr::Negated(a) => f_neg(eval(*a, asg, inst, row)),
        Expr::Sum(a, b) => f_add(eval(*a, asg, inst, row), eval(*b, asg, inst, row)),
        Expr::Product(a, b) => f_mul(eval(*a, asg, inst, row), eval(*b, asg, inst, row)),
    }
}

/// Evaluates a gate polynomial at a row of the filled grid.
pub fn eval_expr(
    e: &Expr,
    cs: &ConstraintSystem,
    asg: &Assignment,
    inst: &Vec<Vec<Fp>>,
    row: usize,
) -> (r: Fp)
    requires
        asg.wf(*cs),
        asg.n >= 1,
        inst_wf(*inst, *cs, asg.n as int),
        expr_wf(
            *e,
            cs.num_advice(),
            cs.num_instance(),
            cs.num_fixed as int,
            cs.num_selectors as int,
        ),
        row < asg.n,
    ensures
        r.wf(),
        r@ == eval(*e, *asg, *inst, row as int),
    decreases *e,
{
    match e {
        Expr::Constant(f) => *f,
        Expr::Advice { col, rot } => {
            let rr = resolve_row(row, *rot, asg.n);
            match asg.advice[*col][rr] {
                Some(f) => f,
                None => Fp::zero(),
            }
        },
        Expr::Instance { col, rot } => {
            let rr = resolve_row(row, *rot, asg.n);
            inst[*col][rr]
        },
        Expr::Fixed { col, rot } => {
            let rr = resolve_row(row, *rot, asg.n);
            match asg.fixed[*col][rr] {
                Some(f) => f,
                None => Fp::zero(),
            }
        },
        Expr::Selector { sel } => {
            if asg.selectors[*sel][row] {
                Fp::one()
            } else {
                Fp::zero()
            }
        },
        Expr::Negated(a) => eval_expr(&**a, cs, asg, inst, row).neg(),
        Expr::Sum(a, b) => {
            let va = eval_expr(&**a, cs, asg, inst, row);
            let vb = eval_expr(&**b, cs, asg, inst, row);
            va.add(vb)
        },
        Expr::Product(a, b) => {
            let va = eval_expr(&**a, cs, asg, inst, row);
            let vb = eval_expr(&**b, cs, asg, inst, row);
            va.mul(vb)
        },
    }
}

/// The value carried by a cell: advice and fixed cells read from the
/// grid (zero when unassigned), instance cells from the public input
/// vector.
pub open spec fn cell_value(asg: Assignment, inst: Vec<Vec<Fp>>, cell: Cell) -> int {
    match cell.kind {
        ColumnKind::Advice => asg.advice_val(cell.col as int, cell.row as int),
        ColumnKind::Instance => inst_val(inst, cell.col as int, cell.row as int),
        ColumnKind::Fixed => asg.fixed_val(cell.col as int, cell.row as int),
    }
}

/// Polynomial `p` of gate `g` vanishes at `row`.
pub open spec fn gate_ok(
    cs: ConstraintSystem,
    asg: Assignment,
    inst: Vec<Vec<Fp>>,
    g: int,
    p: int,
    row: int,
) -> bool {
    eval(cs.gates@[g].polys@[p], asg, inst, row) == 0
}

/// Copy constraint `i` joins two cells carrying equal values.
pub open spec fn copy_ok(asg: Assignment, inst: Vec<Vec<Fp>>, i: int) -> bool {
    cell_value(asg, inst, asg.copies@[i].left) == cell_value(asg, inst, asg.copies@[i].right)
}

/// The witness satisfies the circuit: every polynomial of every gate
/// vanishes at every row, and every copy constraint holds.
pub open spec fn satisfied(cs: ConstraintSystem, asg: Assignment, inst: Vec<Vec<Fp>>) -> bool {
    &&& forall|g: int, p: int, row: int|
        0 <= g < cs.gates@.len() && 0 <= p < cs.gates@[g].polys@.len() && 0 <= row < asg.n
            ==> gate_ok(cs, asg, inst, g, p, row)
    &&& forall|i: int| 0 <= i < asg.copies@.len() ==> copy_ok(asg, inst, i)
}

/// One violated constraint, as reported by the evaluator.
#[derive(Clone, Copy, PartialEq, Eq, Structural, Debug)]
pub enum Violation {
    /// Polynomial `poly` of gate `gate` evaluated non-zero at `row`.
    Gate { gate: usize, poly: usize, row: usize },
    /// Copy constraint number `index` joins cells of different values.
    Copy { index: usize },
}

/// The reported violation names a constraint that really fails.
pub open spec fn violation_real(
    v: Violation,
    cs: ConstraintSystem,
    asg: Assignment,
    inst: Vec<Vec<Fp>>,
) -> bool {
    match v {
        Violation::Gate { gate, poly, row } => {
            &&& gate < cs.gates@.len()
            &&& poly < cs.gates@[gate as int].polys@.len()
            &&& row < asg.n
            &&& !gate_ok(cs, asg, inst, gate as int, poly as int, row as int)
        },
        Violation::Copy { index } => {
            &&& index < asg.copies@.len()
            &&& !copy_ok(asg, inst, index as int)
        },
    }
}

/// Appending to a sequence keeps every element it already contained.
proof fn lemma_prefix_contains(a: Seq<Violation>, b: Seq<Violation>, v: Violation)
    requires
        a.len() <= b.len(),
        forall|k: int| 0 <= k < a.len() ==> a[k] == #[trigger] b[k],
        a.contains(v),
    ensures
        b.contains(v),
{
    let k = choose|k: int| 0 <= k < a.len() && a[k] == v;
    assert(b[k] == v);
}

/// Checks every polynomial of every gate at one row, appending one
/// violation per failing polynomial.
fn check_gates_at_row(
    cs: &ConstraintSystem,
    asg: &Assignment,
    inst: &Vec<Vec<Fp>>,
    row: usize,
    out: &mut Vec<Violation>,
)
    requires
        cs.wf(),
        asg.wf(*cs),
        asg.n >= 1,
        inst_wf(*inst, *cs, asg.n as int),
        row < asg.n,
    ensures
        old(out)@.len() <= final(out)@.len(),
        forall|k: int| 0 <= k < old(out)@.len() ==> old(out)@[k] == #[trigger] final(out)@[k],
        forall|k: int|
            old(out)@.len() <= k < final(out)@.len() ==> violation_real(
                #[trigger] final(out)@[k],
                *cs,
                *asg,
                *inst,
            ),
        forall|g: int, p: int|
            0 <= g < cs.gates@.len() && 0 <= p < cs.gates@[g].polys@.len() && !gate_ok(
                *cs,
                *asg,
                *inst,
                g,
                p,
                row as int,
            ) ==> final(out)@.contains(
                Violation::Gate { gate: g as usize, poly: p as usize, row },
            ),
        final(out)@.len() == old(out)@.len() ==> forall|g: int, p: int|
            0 <= g < cs.gates@.len() && 0 <= p < cs.gates@[g].polys@.len() ==> gate_ok(
                *cs,
                *asg,
                *inst,
                g,
                p,
                row as int,
            ),
{
    let ghost out0 = out@;
    let mut g: usize = 0;
    while g < cs.gates.len()
        invariant
            cs.wf(),
            asg.wf(*cs),
            asg.n >= 1,
            inst_wf(*inst, *cs, asg.n as int),
            row < asg.n,
            g <= cs.gates@.len(),
            out0.len() <= out@.len(),
            forall|k: int| 0 <= k < out0.len() ==> out0[k] == #[trigger] out@[k],
            forall|k: int|
                out0.len() <= k < out@.len() ==> violation_real(
                    #[trigger] out@[k],
                    *cs,
                    *asg,
                    *inst,
                ),
            forall|g2: int, p: int|
                0 <= g2 < g && 0 <= p < cs.gates@[g2].polys@.len() && !gate_ok(
                    *cs,
                    *asg,
                    *inst,
                    g2,
                    p,
                    row as int,
                ) ==> out@.contains(
                    Violation::Gate { gate: g2 as usize, poly: p as usize, row },
                ),
            out@.len() == out0.len() ==> forall|g2: int, p: int|
                0 <= g2 < g && 0 <= p < cs.gates@[g2].polys@.len() ==> gate_ok(
                    *cs,
                    *asg,
                    *inst,
                    g2,
                    p,
                    row as int,
                ),
        decreases cs.gates@.len() - g,
    {
        let ghost out_g = out@;
        let polys_len = cs.gates[g].polys.len();
        let mut p: usize = 0;
        while p < polys_len
            invariant
                cs.wf(),
                asg.wf(*cs),
                asg.n >= 1,
                inst_wf(*inst, *cs, asg.n as int),
                row < asg.n,
                g < cs.gates@.len(),
                polys_len == cs.gates@[g as int].polys@.len(),
                p <= polys_len,
                out_g.len() <= out@.len(),
                forall|k: int| 0 <= k < out_g.len() ==> out_g[k] == #[trigger] out@[k],
                forall|k: int|
                    out_g.len() <= k < out@.len() ==> violation_real(
                        #[trigger] out@[k],
                        *cs,
                        *asg,
                        *inst,
                    ),
                forall|p2: int|
                    0 <= p2 < p && !gate_ok(*cs, *asg, *inst, g as int, p2, row as int)
                        ==> out@.contains(
                        Violation::Gate { gate: g, poly: p2 as usize, row },
                    ),
                out@.len() == out_g.len() ==> forall|p2: int|
                    0 <= p2 < p ==> gate_ok(*cs, *asg, *inst, g as int, p2, row as int),
            decreases polys_len - p,
        {
            let ghost out_p = out@;
            let value = eval_expr(&cs.gates[g].polys[p], cs, asg, inst, row);
            if !value.is_zero() {
                out.push(Violation::Gate { gate: g, poly: p, row });
            }
            proof {
                assert forall|p2: int|
                    0 <= p2 < p + 1 && !gate_ok(*cs, *asg, *inst, g as int, p2, row as int)
                        implies out@.contains(
                    Violation::Gate { gate: g, poly: p2 as usize, row },
                ) by {
                    if p2 < p {
                        lemma_prefix_contains(
                            out_p,
                            out@,
                            Violation::Gate { gate: g, poly: p2 as usize, row },
                        );
                    } else {
                        assert(out@[out@.len() - 1] == (Violation::Gate { gate: g, poly: p, row }));
                    }
                }
            }
            p = p + 1;
        }
        proof {
            assert forall|k: int| 0 <= k < out0.len() implies out0[k] == #[trigger] out@[k] by {
                assert(out@[k] == out_g[k]);
            }
            assert forall|g2: int, p2: int|
                0 <= g2 < g + 1 && 0 <= p2 < cs.gates@[g2].polys@.len() && !gate_ok(
                    *cs,
                    *asg,
                    *inst,
                    g2,
                    p2,
                    row as int,
                ) implies out@.contains(
                Violation::Gate { gate: g2 as usize, poly: p2 as usize, row },
            ) by {
                if g2 < g {
                    lemma_prefix_contains(
                        out_g,
                        out@,
                        Violation::Gate { gate: g2 as usize, poly: p2 as usize, row },
                    );
                }
            }
        }
        g = g + 1;
    }
}

/// Checks every registered copy constraint, appending one violation per
/// failing constraint.
fn check_copies(
    cs: &ConstraintSystem,
    asg: &Assignment,
    inst: &Vec<Vec<Fp>>,
    out: &mut Vec<Violation>,
)
    requires
        cs.wf(),
        asg.wf(*cs),
        asg.n >= 1,
        inst_wf(*inst, *cs, asg.n as int),
    ensures
        old(out)@.len() <= final(out)@.len(),
        forall|k: int| 0 <= k < old(out)@.len() ==> old(out)@[k] == #[trigger] final(out)@[k],
        forall|k: int|
            old(out)@.len() <= k < final(out)@.len() ==> violation_real(
                #[trigger] final(out)@[k],
                *cs,
                *asg,
                *inst,
            ),
        forall|i: int|
            0 <= i < asg.copies@.len() && !copy_ok(*asg, *inst, i) ==> final(out)@.contains(
                Violation::Copy { index: i as usize },
            ),
        final(out)@.len() == old(out)@.len() ==> forall|i: int|
            0 <= i < asg.copies@.len() ==> copy_ok(*asg, *inst, i),
{
    let ghost out0 = out@;
    let mut i: usize = 0;
    while i < asg.copies.len()
        invariant
            cs.wf(),
            asg.wf(*cs),
            asg.n >= 1,
            inst_wf(*inst, *cs, asg.n as int),
            i <= asg.copies@.len(),
            out0.len() <= out@.len(),
            forall|k: int| 0 <= k < out0.len() ==> out0[k] == #[trigger] out@[k],
            forall|k: int|
                out0.len() <= k < out@.len() ==> violation_real(
                    #[trigger] out@[k],
                    *cs,
                    *asg,
                    *inst,
                ),
            forall|i2: int|
                0 <= i2 < i && !copy_ok(*asg, *inst, i2) ==> out@.contains(
                    Violation::Copy { index: i2 as usize },
                ),
            out@.len() == out0.len() ==> forall|i2: int| 0 <= i2 < i ==> copy_ok(*asg, *inst, i2),
        decreases asg.copies@.len() - i,
    {
        let ghost out_i = out@;
        let cc = asg.copies[i];
        let left = read_cell(cs, asg, inst, cc.left);
        let right = read_cell(cs, asg, inst, cc.right);
        if !left.eq_value(&right) {
            out.push(Violation::Copy { index: i });
        }
        proof {
            assert forall|i2: int|
                0 <= i2 < i + 1 && !copy_ok(*asg, *inst, i2) implies out@.contains(
                Violation::Copy { index: i2 as usize },
            ) by {
                if i2 < i {
                    lemma_prefix_contains(out_i, out@, Violation::Copy { index: i2 as usize });
                } else {
                    assert(out@[out@.len() - 1] == (Violation::Copy { index: i }));
                }
            }
        }
        i = i + 1;
    }
}

/// Reads the value a cell carries, for the copy-constraint check.
fn read_cell(cs: &ConstraintSystem, asg: &Assignment, inst: &Vec<Vec<Fp>>, cell: Cell) -> (r: Fp)
    requires
        asg.wf(*cs),
        inst_wf(*inst, *cs, asg.n as int),
        asg.cell_in_range(*cs, cell),
    ensures
        r.wf(),
        r@ == cell_value(*asg, *inst, cell),
{
    match cell.kind {
        ColumnKind::Advice => match asg.advice[cell.col][cell.row] {
            Some(f) => f,
            None => Fp::zero(),
        },
        ColumnKind::Instance => inst[cell.col][cell.row],
        ColumnKind::Fixed => match asg.fixed[cell.col][cell.row] {
            Some(f) => f,
            None => Fp::zero(),
        },
    }
}

/// Evaluates the whole circuit: every polynomial of every gate at every
/// row, then every copy constraint.  The returned list is empty exactly
/// when the witness satisfies the circuit, and everything it reports is
/// a genuine violation.
pub fn verify_circuit(cs: &ConstraintSystem, asg: &Assignment, inst: &Vec<Vec<Fp>>) -> (out: Vec<
    Violation,
>)
    requires
        cs.wf(),
        asg.wf(*cs),
        asg.n >= 1,
        inst_wf(*inst, *cs, asg.n as int),
    ensures
        forall|k: int|
            0 <= k < out@.len() ==> violation_real(#[trigger] out@[k], *cs, *asg, *inst),
        forall|g: int, p: int, row: int|
            0 <= g < cs.gates@.len() && 0 <= p < cs.gates@[g].polys@.len() && 0 <= row < asg.n
                && !gate_ok(*cs, *asg, *inst, g, p, row) ==> out@.contains(
                Violation::Gate { gate: g as usize, poly: p as usize, row: row as usize },
            ),
        forall|i: int|
            0 <= i < asg.copies@.len() && !copy_ok(*asg, *inst, i) ==> out@.contains(
                Violation::Copy { index: i as usize },
            ),
        out@.len() == 0 <==> satisfied(*cs, *asg, *inst),
{
    let mut out: Vec<Violation> = Vec::new();
    let mut row: usize = 0;
    while row < asg.n
        invariant
            cs.wf(),
            asg.wf(*cs),
            asg.n >= 1,
            inst_wf(*inst, *cs, asg.n as int),
            row <= asg.n,
            forall|k: int|
                0 <= k < out@.len() ==> violation_real(#[trigger] out@[k], *cs, *asg, *inst),
            forall|g: int, p: int, row2: int|
                0 <= g < cs.gates@.len() && 0 <= p < cs.gates@[g].polys@.len() && 0 <= row2 < row
                    && !gate_ok(*cs, *asg, *inst, g, p, row2) ==> out@.contains(
                    Violation::Gate { gate: g as usize, poly: p as usize, row: row2 as usize },
                ),
            out@.len() == 0 ==> forall|g: int, p: int, row2: int|
                0 <= g < cs.gates@.len() && 0 <= p < cs.gates@[g].polys@.len() && 0 <= row2 < row
                    ==> gate_ok(*cs, *asg, *inst, g, p, row2),
        decreases asg.n - row,
    {
        let ghost out_before = out@;
        check_gates_at_row(cs, asg, inst, row, &mut out);
        proof {
            assert forall|g: int, p: int, row2: int|
                0 <= g < cs.gates@.len() && 0 <= p < cs.gates@[g].polys@.len() && 0 <= row2 < row
                    + 1 && !gate_ok(*cs, *asg, *inst, g, p, row2) implies out@.contains(
                Violation::Gate { gate: g as usize, poly: p as usize, row: row2 as usize },
            ) by {
                if row2 < row {
                    lemma_prefix_contains(
                        out_before,
                        out@,
                        Violation::Gate { gate: g as usize, poly: p as usize, row: row2 as usize },
                    );
                }
            }
        }
        row = row + 1;
    }
    let ghost out_gates = out@;
    check_copies(cs, asg, inst, &mut out);
    proof {
        assert forall|g: int, p: int, row2: int|
            0 <= g < cs.gates@.len() && 0 <= p < cs.gates@[g].polys@.len() && 0 <= row2 < asg.n
                && !gate_ok(*cs, *asg, *inst, g, p, row2) implies out@.contains(
            Violation::Gate { gate: g as usize, poly: p as usize, row: row2 as usize },
        ) by {
            lemma_prefix_contains(
                out_gates,
                out@,
                Violation::Gate { gate: g as usize, poly: p as usize, row: row2 as usize },
            );
        }
        if out@.len() == 0 {
            assert(satisfied(*cs, *asg, *inst));
        }
        if satisfied(*cs, *asg, *inst) {
            if out@.len() > 0 {
                assert(violation_real(out@[0], *cs, *asg, *inst));
                assert(false);
            }
        }
    }
    out
}

} // verus!
