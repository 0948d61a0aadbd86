//! Gates of width three, and the fitting of a constraint into one.
//!
//! The quadratic term takes the wires `a` and `b`. Each linear term then goes to
//! the first of `a`, `b`, `c` that is free or already holds its witness, and sets
//! that wire's selector. A later term on the same witness replaces the selector,
//! it is not added to it.

use crate::constraint::{Constraint, ConstraintView, LinearTerm};
use crate::field::{lemma_add_congruent, modulus, zero_value, FieldValue};
use crate::witness::{value_on, wire_value, witness_values, Witness};
use acvm::acir::native_types::WitnessMap;
use vstd::prelude::*;

verus! {

/// The constraint does not fit a gate: it has more than one quadratic term, or a
/// linear term found every wire taken by another witness.
#[derive(Clone, Copy, Debug, PartialEq, Eq)]
pub struct WidthExceeded;

/// A gate: it asserts that
/// `ql·a + qr·b + qo·c + qm·a·b + qc` is zero in the field, where a wire that holds
/// no witness counts as zero.
#[derive(Clone, Copy, Debug, PartialEq, Eq)]
pub struct PlonkDefault {
    /// The left wire.
    pub a: Option<Witness>,
    /// The right wire.
    pub b: Option<Witness>,
    /// The output wire.
    pub c: Option<Witness>,
    /// The selector of the left wire.
    pub ql: FieldValue,
    /// The selector of the right wire.
    pub qr: FieldValue,
    /// The selector of the output wire.
    pub qo: FieldValue,
    /// The selector of the product of the left and the right wire.
    pub qm: FieldValue,
    /// The constant.
    pub qc: FieldValue,
}

/// Whether a term on `witness` may go to `wire`: the wire is free or holds that
/// witness already.
pub open spec fn admits(wire: Option<Witness>, witness: Witness) -> bool {
    wire is None || wire == Some(witness)
}

/// Whether a term on `witness` may go to `wire`.
fn wire_admits(wire: Option<Witness>, witness: Witness) -> (r: bool)
    ensures
        r == admits(wire, witness),
{
    match wire {
        None => true,
        Some(held) => held.0 == witness.0,
    }
}

impl PlonkDefault {
    /// A gate with no wire taken and every selector zero.
    pub open spec fn empty() -> PlonkDefault {
        PlonkDefault {
            a: None,
            b: None,
            c: None,
            ql: zero_value(),
            qr: zero_value(),
            qo: zero_value(),
            qm: zero_value(),
            qc: zero_value(),
        }
    }

    /// This gate after the linear term `x · witness` has been given a wire, or `None`
    /// if every wire holds another witness.
    pub open spec fn placed(self, x: FieldValue, witness: Witness) -> Option<PlonkDefault> {
        if admits(self.a, witness) {
            Some(PlonkDefault { a: Some(witness), ql: x, ..self })
        } else if admits(self.b, witness) {
            Some(PlonkDefault { b: Some(witness), qr: x, ..self })
        } else if admits(self.c, witness) {
            Some(PlonkDefault { c: Some(witness), qo: x, ..self })
        } else {
            None
        }
    }

    /// This gate after each of `terms` has been given a wire, in order, or `None` if
    /// one of them found none.
    pub open spec fn placed_all(self, terms: Seq<LinearTerm>) -> Option<PlonkDefault>
        decreases terms.len(),
    {
        if terms.len() == 0 {
            Some(self)
        } else {
            match self.placed_all(terms.drop_last()) {
                Some(gate) => gate.placed(terms.last().0, terms.last().1),
                None => None,
            }
        }
    }

    /// The integer that this gate asserts to be zero in the field.
    pub open spec fn sum(self, values: Map<u32, int>) -> int {
        let a = wire_value(values, self.a);
        let b = wire_value(values, self.b);
        let c = wire_value(values, self.c);
        self.ql@ * a + self.qr@ * b + self.qo@ * c + self.qm@ * a * b + self.qc@
    }

    /// Whether `values` satisfy this gate.
    pub open spec fn holds(self, values: Map<u32, int>) -> bool {
        self.sum(values) % modulus() == 0
    }

    /// Gives the linear term `x · witness` the first wire that is free or holds
    /// `witness` already, and sets that wire's selector to `x`. Where every wire
    /// holds another witness this gate stays as it is and the term is refused.
    pub fn set_linear_term(&mut self, x: FieldValue, witness: Witness) -> (r: Result<
        (),
        WidthExceeded,
    >)
        ensures
            match old(self).placed(x, witness) {
                Some(gate) => r is Ok && *final(self) == gate,
                None => r is Err && *final(self) == *old(self),
            },
    {
        if wire_admits(self.a, witness) {
            self.a = Some(witness);
            self.ql = x;
            Ok(())
        } else if wire_admits(self.b, witness) {
            self.b = Some(witness);
            self.qr = x;
            Ok(())
        } else if wire_admits(self.c, witness) {
            self.c = Some(witness);
            self.qo = x;
            Ok(())
        } else {
            Err(WidthExceeded)
        }
    }

    /// Whether the witnesses satisfy this gate. A wire that holds no witness, or a
    /// witness without a value, counts as zero.
    pub fn evaluate(&self, witnesses: &WitnessMap) -> (r: bool)
        ensures
            r == self.holds(witness_values(*witnesses)),
    {
        let ghost values = witness_values(*witnesses);
        let a = value_on(witnesses, self.a);
        let b = value_on(witnesses, self.b);
        let c = value_on(witnesses, self.c);
        let left = self.ql.mul(&a);
        let right = self.qr.mul(&b);
        let output = self.qo.mul(&c);
        let product = self.qm.mul3(&a, &b);
        let two = left.add(&right);
        let three = two.add(&output);
        let four = three.add(&product);
        let total = four.add(&self.qc);
        proof {
            let l = self.ql@ * a@;
            let r = self.qr@ * b@;
            let o = self.qo@ * c@;
            let m = self.qm@ * a@ * b@;
            self.qc.lemma_view_range();
            vstd::arithmetic::div_mod::lemma_small_mod(self.qc@ as nat, modulus() as nat);
            lemma_add_congruent(left@, l, right@, r);
            lemma_add_congruent(two@, l + r, output@, o);
            lemma_add_congruent(three@, l + r + o, product@, m);
            lemma_add_congruent(four@, l + r + o + m, self.qc@, self.qc@);
        }
        total.is_zero()
    }
}

impl Default for PlonkDefault {
    /// A gate with no wire taken and every selector zero.
    fn default() -> (r: PlonkDefault)
        ensures
            r == PlonkDefault::empty(),
    {
        PlonkDefault {
            a: None,
            b: None,
            c: None,
            ql: FieldValue::zero(),
            qr: FieldValue::zero(),
            qo: FieldValue::zero(),
            qm: FieldValue::zero(),
            qc: FieldValue::zero(),
        }
    }
}

/// What a constraint with at most one quadratic term starts from: a gate with its
/// quadratic term, if it has one, on the wires `a` and `b`, and nothing else.
pub open spec fn seeded(constraint: ConstraintView) -> PlonkDefault {
    if constraint.mul_terms.len() == 0 {
        PlonkDefault::empty()
    } else {
        PlonkDefault {
            a: Some(constraint.mul_terms[0].1),
            b: Some(constraint.mul_terms[0].2),
            qm: constraint.mul_terms[0].0,
            ..PlonkDefault::empty()
        }
    }
}

/// A gate that stands for `constraint`, or the refusal of a constraint that does
/// not fit: it has more than one quadratic term, or one of its linear terms finds
/// no wire.
pub open spec fn fitted(constraint: ConstraintView) -> Result<PlonkDefault, WidthExceeded> {
    if constraint.mul_terms.len() > 1 {
        Err(WidthExceeded)
    } else {
        match seeded(constraint).placed_all(constraint.linear_combinations) {
            Some(gate) => Ok(PlonkDefault { qc: constraint.q_c, ..gate }),
            None => Err(WidthExceeded),
        }
    }
}

/// Fits `constraint` into one gate, or refuses it where it does not fit.
pub fn fit(constraint: &Constraint) -> (r: Result<PlonkDefault, WidthExceeded>)
    ensures
        r == fitted(constraint@),
{
    if constraint.mul_terms.len() > 1 {
        return Err(WidthExceeded);
    }
    let mut gate = PlonkDefault::default();
    if constraint.mul_terms.len() == 1 {
        let term = constraint.mul_terms[0];
        gate.qm = term.0;
        gate.a = Some(term.1);
        gate.b = Some(term.2);
    }
    let ghost terms = constraint.linear_combinations@;
    let mut i: usize = 0;
    while i < constraint.linear_combinations.len()
        invariant
            i <= constraint.linear_combinations.len(),
            terms == constraint.linear_combinations@,
            seeded(constraint@).placed_all(terms.take(i as int)) == Some(gate),
        decreases constraint.linear_combinations.len() - i,
    {
        let term = constraint.linear_combinations[i];
        assert(terms.take(i + 1).drop_last() =~= terms.take(i as int));
        match gate.set_linear_term(term.0, term.1) {
            Ok(()) => {},
            Err(e) => {
                proof {
                    lemma_placed_all_fails_on(seeded(constraint@), terms, i + 1);
                }
                return Err(e);
            },
        }
        i += 1;
    }
    assert(terms.take(i as int) =~= terms);
    gate.qc = constraint.q_c;
    Ok(gate)
}

/// Once a term has found no wire, no longer run of terms is placed.
pub proof fn lemma_placed_all_fails_on(gate: PlonkDefault, terms: Seq<LinearTerm>, n: int)
    requires
        0 <= n <= terms.len(),
        gate.placed_all(terms.take(n)) is None,
    ensures
        gate.placed_all(terms) is None,
    decreases terms.len(),
{
    if n < terms.len() {
        assert(terms.drop_last().take(n) =~= terms.take(n));
        lemma_placed_all_fails_on(gate, terms.drop_last(), n);
    } else {
        assert(terms.take(n) =~= terms);
    }
}

} // verus!
