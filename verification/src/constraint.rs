//! The constraint: a sum of quadratic terms, linear terms and a constant that is
//! asserted to be zero.

use crate::field::{lemma_add_congruent, modulus, FieldValue};
use crate::witness::{value_of, witness_value, witness_values, Witness};
use acvm::acir::native_types::WitnessMap;
use vstd::prelude::*;

verus! {

/// A quadratic term: a coefficient and the two witnesses that are multiplied.
pub type MulTerm = (FieldValue, Witness, Witness);

/// A linear term: a coefficient and its witness.
pub type LinearTerm = (FieldValue, Witness);

/// The assertion that a sum of terms is zero in the field.
#[derive(Clone, Debug, PartialEq, Eq)]
pub struct Constraint {
    /// The quadratic terms. A gate has room for one.
    pub mul_terms: Vec<MulTerm>,
    /// The linear terms, in the order in which they are given a wire.
    pub linear_combinations: Vec<LinearTerm>,
    /// The constant.
    pub q_c: FieldValue,
}

/// A constraint as a mathematical value.
pub struct ConstraintView {
    pub mul_terms: Seq<MulTerm>,
    pub linear_combinations: Seq<LinearTerm>,
    pub q_c: FieldValue,
}

impl View for Constraint {
    type V = ConstraintView;

    open spec fn view(&self) -> ConstraintView {
        ConstraintView {
            mul_terms: self.mul_terms@,
            linear_combinations: self.linear_combinations@,
            q_c: self.q_c,
        }
    }
}

/// What a quadratic term contributes under `values`.
pub open spec fn mul_term_value(term: MulTerm, values: Map<u32, int>) -> int {
    term.0@ * witness_value(values, term.1) * witness_value(values, term.2)
}

/// What a linear term contributes under `values`.
pub open spec fn linear_term_value(term: LinearTerm, values: Map<u32, int>) -> int {
    term.0@ * witness_value(values, term.1)
}

/// The sum of the quadratic terms under `values`.
pub open spec fn mul_sum(terms: Seq<MulTerm>, values: Map<u32, int>) -> int
    decreases terms.len(),
{
    if terms.len() == 0 {
        0
    } else {
        mul_sum(terms.drop_last(), values) + mul_term_value(terms.last(), values)
    }
}

/// The sum of the linear terms under `values`.
pub open spec fn linear_sum(terms: Seq<LinearTerm>, values: Map<u32, int>) -> int
    decreases terms.len(),
{
    if terms.len() == 0 {
        0
    } else {
        linear_sum(terms.drop_last(), values) + linear_term_value(terms.last(), values)
    }
}

impl ConstraintView {
    /// The sum that the constraint asserts to be zero, as an integer.
    pub open spec fn sum(self, values: Map<u32, int>) -> int {
        mul_sum(self.mul_terms, values) + linear_sum(self.linear_combinations, values) + self.q_c@
    }

    /// Whether `values` satisfy the constraint: the sum is zero in the field.
    pub open spec fn holds(self, values: Map<u32, int>) -> bool {
        self.sum(values) % modulus() == 0
    }
}

impl Constraint {
    /// Whether the witnesses satisfy the constraint, computed term by term from the
    /// constraint itself.
    pub fn evaluate(&self, witnesses: &WitnessMap) -> (r: bool)
        ensures
            r == self@.holds(witness_values(*witnesses)),
    {
        let ghost values = witness_values(*witnesses);
        let mut total = FieldValue::zero();
        let mut i: usize = 0;
        while i < self.mul_terms.len()
            invariant
                i <= self.mul_terms.len(),
                values == witness_values(*witnesses),
                total@ == mul_sum(self.mul_terms@.take(i as int), values) % modulus(),
            decreases self.mul_terms.len() - i,
        {
            let term = self.mul_terms[i];
            let left = value_of(witnesses, term.1);
            let right = value_of(witnesses, term.2);
            let product = term.0.mul3(&left, &right);
            proof {
                let before = self.mul_terms@.take(i as int);
                let after = self.mul_terms@.take(i + 1);
                assert(after.drop_last() =~= before);
                lemma_add_congruent(
                    total@,
                    mul_sum(before, values),
                    product@,
                    mul_term_value(term, values),
                );
            }
            total = total.add(&product);
            i += 1;
        }
        assert(self.mul_terms@.take(i as int) =~= self.mul_terms@);
        let ghost quadratic = mul_sum(self.mul_terms@, values);
        let mut j: usize = 0;
        while j < self.linear_combinations.len()
            invariant
                j <= self.linear_combinations.len(),
                values == witness_values(*witnesses),
                total@ == (quadratic + linear_sum(self.linear_combinations@.take(j as int), values))
                    % modulus(),
            decreases self.linear_combinations.len() - j,
        {
            let term = self.linear_combinations[j];
            let value = value_of(witnesses, term.1);
            let product = term.0.mul(&value);
            proof {
                let before = self.linear_combinations@.take(j as int);
                let after = self.linear_combinations@.take(j + 1);
                assert(after.drop_last() =~= before);
                lemma_add_congruent(
                    total@,
                    quadratic + linear_sum(before, values),
                    product@,
                    linear_term_value(term, values),
                );
            }
            total = total.add(&product);
            j += 1;
        }
        assert(self.linear_combinations@.take(j as int) =~= self.linear_combinations@);
        proof {
            self.q_c.lemma_view_range();
            vstd::arithmetic::div_mod::lemma_small_mod(self.q_c@ as nat, modulus() as nat);
            lemma_add_congruent(
                total@,
                quadratic + linear_sum(self.linear_combinations@, values),
                self.q_c@,
                self.q_c@,
            );
        }
        total.add(&self.q_c).is_zero()
    }
}

} // verus!
