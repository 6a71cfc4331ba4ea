//! An arithmetic-circuit construction layer: witness values are assigned
//! into a grid of typed columns, polynomial gates gated by selectors are
//! declared over the grid, copy constraints force pairs of cells to carry
//! equal values, and chosen cells are exposed as public instance values.
//! A mock evaluator re-checks every gate and copy constraint against a
//! filled grid and a public-input vector.

pub mod a_equals_b;
pub mod a_plus_b_eq_c;
pub mod checker;
pub mod example1;
pub mod expression;
pub mod fibonacci;
pub mod field;
pub mod layout;
pub mod range_check;
pub mod sc_box;
pub mod table;
pub mod system;
