//! The lookup-table column for a production-grade range check: a fixed
//! column meant to hold every residue of the accepted range.  The
//! lookup argument that would consume it is not part of this core; the
//! column is declared for structural completeness only.

use crate::system::{ConstraintSystem, FixedColumn};
use vstd::prelude::*;

verus! {

/// A fixed column reserved for a range lookup table.
#[derive(Clone, Copy, PartialEq, Eq, Structural, Debug)]
pub struct RangeCheckTable {
    pub value: FixedColumn,
}

impl RangeCheckTable {
    /// Declares the table's fixed column.
    pub fn configure(meta: &mut ConstraintSystem) -> (r: RangeCheckTable)
        requires
            old(meta).wf(),
            old(meta).num_fixed < usize::MAX,
        ensures
            final(meta).wf(),
            r.value.index == old(meta).num_fixed,
            final(meta).num_fixed == old(meta).num_fixed + 1,
            final(meta).advice_eq@ == old(meta).advice_eq@,
            final(meta).instance_eq@ == old(meta).instance_eq@,
            final(meta).num_selectors == old(meta).num_selectors,
            final(meta).gates@ == old(meta).gates@,
    {
        let value = meta.fixed_column();
        RangeCheckTable { value }
    }
}

} // verus!
