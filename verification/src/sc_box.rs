//! Traits for substitution-box gadgets: a configuration marker and the
//! plain application of an S-box permutation to a set of field
//! elements.  Constraint-emitting variants would build on these.

use crate::field::Fp;
use vstd::prelude::*;

verus! {

/// Marker for a gadget configuration.
pub trait Halo2BoxConfig {

}

/// An S-box: a permutation applied in place to field elements.
pub trait SBox {
    /// Applies the permutation to every element of the set.
    fn apply(&self, elements: &mut Vec<Fp>);
}

} // verus!
