//! Fits arithmetic constraints of arbitrary shape into PLONK gates of width three.
//!
//! A constraint is a sum of quadratic terms, linear terms and a constant that is
//! asserted to be zero. A gate has three wires `a`, `b`, `c` and five selectors, and
//! stands for `q_l·a + q_r·b + q_o·c + q_m·a·b + q_c = 0`. The modules, leaf first:
//!
//! - [`field`]: values of the scalar field, with the arithmetic done by `acvm`;
//! - [`witness`]: witness identifiers and the lookup in a witness assignment;
//! - [`constraint`]: the constraint and the sum it stands for;
//! - [`gate`]: gates, the first-fit placement of terms, and their evaluation;
//! - [`circuit`]: opcodes, circuits and their translation into gates;
//! - [`laws`]: what holds of the translation as a whole.

pub mod circuit;
pub mod constraint;
pub mod field;
pub mod gate;
pub mod laws;
pub mod witness;
