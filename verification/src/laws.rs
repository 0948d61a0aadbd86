//! What holds of the fitting of constraints and of the translation of circuits.
//!
//! Every statement here is about the functions `fitted` and `translation`, which
//! the results of `fit` and `translate` are equal to.

use crate::circuit::{opcode_gate, translation, Opcode, OpcodeKind, TranslationError};
use crate::constraint::{linear_sum, mul_sum, ConstraintView, LinearTerm};
use crate::field::{lemma_zero_value, zero_value, FieldValue};
use crate::gate::{fitted, seeded, PlonkDefault, WidthExceeded};
use crate::witness::{wire_value, witness_value, Witness};
use vstd::prelude::*;

verus! {

/// The coefficient of the last of `terms` that is on `witness`, zero if none is.
pub open spec fn last_coefficient(terms: Seq<LinearTerm>, witness: Witness) -> FieldValue
    decreases terms.len(),
{
    if terms.len() == 0 {
        zero_value()
    } else if terms.last().1 == witness {
        terms.last().0
    } else {
        last_coefficient(terms.drop_last(), witness)
    }
}

/// What the terms that a later term replaces would have contributed under
/// `values`: each term replaces the last term before it that is on its witness.
pub open spec fn replaced_sum(terms: Seq<LinearTerm>, values: Map<u32, int>) -> int
    decreases terms.len(),
{
    if terms.len() == 0 {
        0
    } else {
        replaced_sum(terms.drop_last(), values) + last_coefficient(
            terms.drop_last(),
            terms.last().1,
        )@ * witness_value(values, terms.last().1)
    }
}

/// No two of `terms` are on the same witness.
pub open spec fn witnesses_distinct(terms: Seq<LinearTerm>) -> bool {
    forall|i: int, j: int| 0 <= i < j < terms.len() ==> terms[i].1 != terms[j].1
}

/// One of the wires of `gate` holds `witness`.
pub open spec fn holds_witness(gate: PlonkDefault, witness: Witness) -> bool {
    gate.a == Some(witness) || gate.b == Some(witness) || gate.c == Some(witness)
}

/// What the three wires contribute to the sum of `gate`, without the product.
spec fn linear_part(gate: PlonkDefault, values: Map<u32, int>) -> int {
    gate.ql@ * wire_value(values, gate.a) + gate.qr@ * wire_value(values, gate.b) + gate.qo@
        * wire_value(values, gate.c)
}

/// The selector that a wire has after `terms` were placed, where `shadowed` says
/// that an earlier wire holds the same witness.
spec fn selector_after(terms: Seq<LinearTerm>, wire: Option<Witness>, shadowed: bool) -> FieldValue {
    match wire {
        Some(witness) if !shadowed => last_coefficient(terms, witness),
        _ => zero_value(),
    }
}

/// What placing linear terms leaves of a gate that held no linear term before.
spec fn placed_well(start: PlonkDefault, terms: Seq<LinearTerm>, gate: PlonkDefault) -> bool {
    &&& gate.qm == start.qm
    &&& gate.qc == start.qc
    &&& gate.a is None ==> gate.b is None
    &&& gate.b is None ==> gate.c is None
    &&& start.a is Some ==> gate.a == start.a
    &&& start.b is Some ==> gate.b == start.b
    &&& gate.c is Some ==> gate.c != gate.a && gate.c != gate.b
    &&& gate.a is Some && gate.a == gate.b ==> start.a is Some && start.a == start.b
    &&& gate.a is Some ==> gate.a == start.a || exists|i: int|
        0 <= i < terms.len() && gate.a == Some(#[trigger] terms[i].1)
    &&& gate.b is Some ==> gate.b == start.b || exists|i: int|
        0 <= i < terms.len() && gate.b == Some(#[trigger] terms[i].1)
    &&& gate.c is Some ==> exists|i: int|
        0 <= i < terms.len() && gate.c == Some(#[trigger] terms[i].1)
    &&& forall|i: int| 0 <= i < terms.len() ==> holds_witness(gate, #[trigger] terms[i].1)
    &&& gate.ql == selector_after(terms, gate.a, false)
    &&& gate.qr == selector_after(terms, gate.b, gate.b == gate.a)
    &&& gate.qo == selector_after(terms, gate.c, false)
}

/// A witness that none of `terms` is on has the coefficient zero.
proof fn lemma_last_coefficient_absent(terms: Seq<LinearTerm>, witness: Witness)
    requires
        forall|i: int| 0 <= i < terms.len() ==> (#[trigger] terms[i]).1 != witness,
    ensures
        last_coefficient(terms, witness) == zero_value(),
    decreases terms.len(),
{
    if terms.len() > 0 {
        let before = terms.drop_last();
        assert forall|i: int| 0 <= i < before.len() implies (#[trigger] before[i]).1
            != witness by {
            assert(before[i] == terms[i]);
        }
        lemma_last_coefficient_absent(before, witness);
    }
}

/// Where linear terms are placed on a gate that had no linear term yet: which
/// wires it then holds, which selectors, and what its wires contribute.
proof fn lemma_placed_all(start: PlonkDefault, terms: Seq<LinearTerm>, values: Map<u32, int>)
    requires
        start.c is None,
        start.a is None <==> start.b is None,
        start.ql == zero_value(),
        start.qr == zero_value(),
        start.qo == zero_value(),
        start.placed_all(terms) is Some,
    ensures
        placed_well(start, terms, start.placed_all(terms)->Some_0),
        linear_part(start.placed_all(terms)->Some_0, values) == linear_sum(terms, values)
            - replaced_sum(terms, values),
    decreases terms.len(),
{
    lemma_zero_value();
    if terms.len() > 0 {
        let before = terms.drop_last();
        let term = terms.last();
        let held = start.placed_all(before)->Some_0;
        let gate = start.placed_all(terms)->Some_0;
        lemma_placed_all(start, before, values);
        assert forall|i: int| 0 <= i < terms.len() implies holds_witness(
            gate,
            #[trigger] terms[i].1,
        ) by {
            if i < before.len() {
                assert(holds_witness(held, before[i].1));
            }
        }
        if !holds_witness(held, term.1) {
            assert forall|i: int| 0 <= i < before.len() implies (#[trigger] before[i]).1
                != term.1 by {
                assert(holds_witness(held, before[i].1));
            }
            lemma_last_coefficient_absent(before, term.1);
        }
        let value = witness_value(values, term.1);
        let replaced = last_coefficient(before, term.1)@;
        assert(linear_part(gate, values) == linear_part(held, values) + term.0@ * value - replaced
            * value) by {
            assert(0 * value == 0);
        }
    }
}

/// The outcome of fitting is a function of the constraint's terms.
/// Whatever two runs on the same terms return, they return the same.
pub proof fn law_fit_deterministic(
    constraint: ConstraintView,
    first: Result<PlonkDefault, WidthExceeded>,
    second: Result<PlonkDefault, WidthExceeded>,
)
    requires
        first == fitted(constraint),
        second == fitted(constraint),
    ensures
        first == second,
{
}

/// The sum of a fitted gate is the sum of its constraint without the terms that a
/// later term on the same witness replaced, under every assignment of values.
pub proof fn law_fitted_sum(constraint: ConstraintView, values: Map<u32, int>)
    requires
        fitted(constraint) is Ok,
    ensures
        (fitted(constraint)->Ok_0).sum(values) == constraint.sum(values) - replaced_sum(
            constraint.linear_combinations,
            values,
        ),
{
    let gate = fitted(constraint)->Ok_0;
    let a = wire_value(values, gate.a);
    let b = wire_value(values, gate.b);
    lemma_zero_value();
    lemma_placed_all(seeded(constraint), constraint.linear_combinations, values);
    if constraint.mul_terms.len() == 0 {
        assert(gate.qm@ * a * b == 0) by {
            assert(0 * a == 0);
            assert(0 * b == 0);
        }
    } else {
        assert(mul_sum(constraint.mul_terms.drop_last(), values) == 0);
        assert(gate.qm@ * a * b == mul_sum(constraint.mul_terms, values));
    }
}

/// Where no two linear terms are on the same witness, no term is replaced.
pub proof fn lemma_distinct_replaces_none(terms: Seq<LinearTerm>, values: Map<u32, int>)
    requires
        witnesses_distinct(terms),
    ensures
        replaced_sum(terms, values) == 0,
    decreases terms.len(),
{
    if terms.len() > 0 {
        let before = terms.drop_last();
        let term = terms.last();
        assert forall|i: int, j: int| 0 <= i < j < before.len() implies before[i].1
            != before[j].1 by {
            assert(before[i] == terms[i] && before[j] == terms[j]);
        }
        lemma_distinct_replaces_none(before, values);
        assert forall|i: int| 0 <= i < before.len() implies (#[trigger] before[i]).1 != term.1 by {
            assert(before[i] == terms[i]);
        }
        lemma_last_coefficient_absent(before, term.1);
        lemma_zero_value();
        assert(0 * witness_value(values, term.1) == 0);
    }
}

/// A constraint that fits, and whose linear terms are on
/// witnesses that differ from each other, has the sum of its gate under every
/// assignment of values. So its gate holds exactly where the constraint does.
pub proof fn law_identity_preserved(constraint: ConstraintView, values: Map<u32, int>)
    requires
        fitted(constraint) is Ok,
        witnesses_distinct(constraint.linear_combinations),
    ensures
        (fitted(constraint)->Ok_0).sum(values) == constraint.sum(values),
        (fitted(constraint)->Ok_0).holds(values) == constraint.holds(values),
{
    law_fitted_sum(constraint, values);
    lemma_distinct_replaces_none(constraint.linear_combinations, values);
}

/// A constraint with two quadratic terms or more is refused.
pub proof fn law_two_quadratic_terms_refused(constraint: ConstraintView)
    requires
        constraint.mul_terms.len() >= 2,
    ensures
        fitted(constraint) == Err::<PlonkDefault, _>(WidthExceeded),
{
}

/// Every witness of a linear term of a constraint that fits is on a wire of its
/// gate, and so is each witness of its quadratic term.
pub proof fn law_fitted_holds_witnesses(constraint: ConstraintView)
    requires
        fitted(constraint) is Ok,
    ensures
        forall|i: int|
            0 <= i < constraint.linear_combinations.len() ==> holds_witness(
                fitted(constraint)->Ok_0,
                #[trigger] constraint.linear_combinations[i].1,
            ),
        constraint.mul_terms.len() == 1 ==> (fitted(constraint)->Ok_0).a == Some(
            constraint.mul_terms[0].1,
        ) && (fitted(constraint)->Ok_0).b == Some(constraint.mul_terms[0].2),
{
    lemma_placed_all(seeded(constraint), constraint.linear_combinations, Map::empty());
}

/// A constraint with linear terms on four witnesses that differ from each other
/// is refused.
pub proof fn law_four_witnesses_refused(
    constraint: ConstraintView,
    i: int,
    j: int,
    k: int,
    l: int,
)
    requires
        0 <= i < constraint.linear_combinations.len(),
        0 <= j < constraint.linear_combinations.len(),
        0 <= k < constraint.linear_combinations.len(),
        0 <= l < constraint.linear_combinations.len(),
        constraint.linear_combinations[i].1 != constraint.linear_combinations[j].1,
        constraint.linear_combinations[i].1 != constraint.linear_combinations[k].1,
        constraint.linear_combinations[i].1 != constraint.linear_combinations[l].1,
        constraint.linear_combinations[j].1 != constraint.linear_combinations[k].1,
        constraint.linear_combinations[j].1 != constraint.linear_combinations[l].1,
        constraint.linear_combinations[k].1 != constraint.linear_combinations[l].1,
    ensures
        fitted(constraint) == Err::<PlonkDefault, _>(WidthExceeded),
{
    if fitted(constraint) is Ok {
        law_fitted_holds_witnesses(constraint);
    }
}

/// Each of `terms` is on one of the three witnesses.
pub open spec fn within(terms: Seq<LinearTerm>, x: Witness, y: Witness, z: Witness) -> bool {
    forall|i: int|
        0 <= i < terms.len() ==> (#[trigger] terms[i]).1 == x || terms[i].1 == y || terms[i].1 == z
}

/// Whether a constraint is narrow enough for one gate. Without a quadratic term,
/// its linear terms are on three witnesses at most. With one quadratic term, they
/// are on the two witnesses of that term and on one more witness at most.
pub open spec fn narrow(constraint: ConstraintView) -> bool {
    if constraint.mul_terms.len() == 0 {
        exists|x: Witness, y: Witness, z: Witness| #[trigger]
            within(constraint.linear_combinations, x, y, z)
    } else {
        constraint.mul_terms.len() == 1 && exists|z: Witness| #[trigger]
            within(
                constraint.linear_combinations,
                constraint.mul_terms[0].1,
                constraint.mul_terms[0].2,
                z,
            )
    }
}

/// The witness on `wire`, or `otherwise` for a wire that holds none.
spec fn witness_or(wire: Option<Witness>, otherwise: Witness) -> Witness {
    match wire {
        Some(witness) => witness,
        None => otherwise,
    }
}

/// Linear terms on three witnesses at most, two of which are on the wires `a` and
/// `b` already if these are taken, all find a wire.
proof fn lemma_places_within(
    start: PlonkDefault,
    terms: Seq<LinearTerm>,
    x: Witness,
    y: Witness,
    z: Witness,
)
    requires
        start.c is None,
        start.a is None <==> start.b is None,
        start.ql == zero_value(),
        start.qr == zero_value(),
        start.qo == zero_value(),
        start.a is Some ==> start.a == Some(x) && start.b == Some(y),
        within(terms, x, y, z),
    ensures
        start.placed_all(terms) is Some,
    decreases terms.len(),
{
    if terms.len() > 0 {
        let before = terms.drop_last();
        assert forall|i: int| 0 <= i < before.len() implies (#[trigger] before[i]).1 == x
            || before[i].1 == y || before[i].1 == z by {
            assert(before[i] == terms[i]);
        }
        lemma_places_within(start, before, x, y, z);
        lemma_placed_all(start, before, Map::empty());
        assert(terms.last() == terms[terms.len() - 1]);
    }
}

/// A constraint fits a gate if and only if it is narrow.
pub proof fn law_fits_exactly_when_narrow(constraint: ConstraintView)
    ensures
        fitted(constraint) is Ok <==> narrow(constraint),
{
    let start = seeded(constraint);
    let terms = constraint.linear_combinations;
    if fitted(constraint) is Ok {
        lemma_placed_all(start, terms, Map::empty());
        let gate = fitted(constraint)->Ok_0;
        let x = witness_or(gate.a, Witness(0));
        let y = witness_or(gate.b, Witness(0));
        let z = witness_or(gate.c, Witness(0));
        assert forall|i: int| 0 <= i < terms.len() implies (#[trigger] terms[i]).1 == x
            || terms[i].1 == y || terms[i].1 == z by {
            assert(holds_witness(gate, terms[i].1));
        }
        assert(within(terms, x, y, z));
    }
    if narrow(constraint) {
        if constraint.mul_terms.len() == 0 {
            let (x, y, z) = choose|x: Witness, y: Witness, z: Witness| #[trigger]
                within(terms, x, y, z);
            lemma_places_within(start, terms, x, y, z);
        } else {
            let z = choose|z: Witness| #[trigger]
                within(terms, constraint.mul_terms[0].1, constraint.mul_terms[0].2, z);
            lemma_places_within(
                start,
                terms,
                constraint.mul_terms[0].1,
                constraint.mul_terms[0].2,
                z,
            );
        }
    }
}

/// In a gate whose constraint fits and has a quadratic term on
/// `(w1, w2)`, a linear term on `w1` shares the wire `a` with the quadratic term.
/// The wires `a` and `b` stay those of the quadratic term, the wire `c` holds
/// neither of its witnesses, and the selector of `a` is the coefficient of the
/// last linear term on `w1`.
pub proof fn law_slot_merge(constraint: ConstraintView, i: int)
    requires
        constraint.mul_terms.len() == 1,
        0 <= i < constraint.linear_combinations.len(),
        constraint.linear_combinations[i].1 == constraint.mul_terms[0].1,
        fitted(constraint) is Ok,
    ensures
        (fitted(constraint)->Ok_0).a == Some(constraint.mul_terms[0].1),
        (fitted(constraint)->Ok_0).b == Some(constraint.mul_terms[0].2),
        (fitted(constraint)->Ok_0).c != Some(constraint.mul_terms[0].1),
        (fitted(constraint)->Ok_0).c != Some(constraint.mul_terms[0].2),
        (fitted(constraint)->Ok_0).ql == last_coefficient(
            constraint.linear_combinations,
            constraint.mul_terms[0].1,
        ),
        (forall|j: int|
            i < j < constraint.linear_combinations.len() ==> constraint.linear_combinations[j].1
                != constraint.mul_terms[0].1) ==> (fitted(constraint)->Ok_0).ql
            == constraint.linear_combinations[i].0,
{
    lemma_placed_all(seeded(constraint), constraint.linear_combinations, Map::empty());
    if forall|j: int|
        i < j < constraint.linear_combinations.len() ==> constraint.linear_combinations[j].1
            != constraint.mul_terms[0].1 {
        lemma_last_coefficient_at(constraint.linear_combinations, i);
    }
}

/// The coefficient of the last term on a witness is that of the term at `i`, where
/// no later term is on the witness of that term.
pub proof fn lemma_last_coefficient_at(terms: Seq<LinearTerm>, i: int)
    requires
        0 <= i < terms.len(),
        forall|j: int| i < j < terms.len() ==> terms[j].1 != terms[i].1,
    ensures
        last_coefficient(terms, terms[i].1) == terms[i].0,
    decreases terms.len(),
{
    if i < terms.len() - 1 {
        let before = terms.drop_last();
        assert forall|j: int| i < j < before.len() implies before[j].1 != before[i].1 by {
            assert(before[j] == terms[j]);
        }
        lemma_last_coefficient_at(before, i);
    }
}

/// A translation that succeeds has one gate for each opcode, in their order, and
/// every opcode is the assertion of a constraint.
pub proof fn law_translation_aligned(opcodes: Seq<Opcode>)
    requires
        opcodes.len() <= usize::MAX,
        translation(opcodes) is Ok,
    ensures
        (translation(opcodes)->Ok_0).len() == opcodes.len(),
        forall|i: int|
            0 <= i < opcodes.len() ==> opcodes[i] is AssertZero && #[trigger] opcode_gate(
                opcodes[i],
                i as usize,
            ) == Ok::<_, TranslationError>((translation(opcodes)->Ok_0)[i]),
    decreases opcodes.len(),
{
    if opcodes.len() > 0 {
        let before = opcodes.drop_last();
        law_translation_aligned(before);
        assert forall|i: int| 0 <= i < opcodes.len() implies opcodes[i] is AssertZero
            && #[trigger] opcode_gate(opcodes[i], i as usize) == Ok::<_, TranslationError>(
            (translation(opcodes)->Ok_0)[i],
        ) by {
            if i < before.len() {
                assert(opcode_gate(before[i], i as usize) is Ok);
            }
        }
    }
}

/// A translation fails at the first opcode that has no gate, with the error of
/// that opcode.
pub proof fn law_translation_fails_first(opcodes: Seq<Opcode>, i: int)
    requires
        opcodes.len() <= usize::MAX,
        0 <= i < opcodes.len(),
        opcode_gate(opcodes[i], i as usize) is Err,
        forall|j: int| 0 <= j < i ==> #[trigger] opcode_gate(opcodes[j], j as usize) is Ok,
    ensures
        translation(opcodes) == Err::<Seq<PlonkDefault>, _>(
            opcode_gate(opcodes[i], i as usize)->Err_0,
        ),
        (translation(opcodes)->Err_0).spec_index() == i,
    decreases opcodes.len(),
{
    let before = opcodes.drop_last();
    if i < opcodes.len() - 1 {
        assert forall|j: int| 0 <= j < i implies #[trigger] opcode_gate(before[j], j as usize)
            is Ok by {
            assert(before[j] == opcodes[j]);
        }
        law_translation_fails_first(before, i);
    } else {
        if translation(before) is Err {
            let error = translation(before)->Err_0;
            lemma_translation_error_at(before);
            let j = error.spec_index() as int;
            assert(opcode_gate(opcodes[j], j as usize) is Ok);
        }
    }
}

/// The error of a translation is that of one of its opcodes, the one at the
/// position that the error names. The kind that it calls unsupported is never
/// the assertion of a constraint.
pub proof fn lemma_translation_error_at(opcodes: Seq<Opcode>)
    requires
        opcodes.len() <= usize::MAX,
        translation(opcodes) is Err,
    ensures
        0 <= (translation(opcodes)->Err_0).spec_index() < opcodes.len(),
        opcode_gate(
            opcodes[(translation(opcodes)->Err_0).spec_index() as int],
            (translation(opcodes)->Err_0).spec_index(),
        ) == Err::<PlonkDefault, _>(translation(opcodes)->Err_0),
        translation(opcodes)->Err_0 matches TranslationError::UnsupportedOpcode { kind, .. }
            ==> kind != OpcodeKind::AssertZero,
    decreases opcodes.len(),
{
    if opcodes.len() > 0 {
        let before = opcodes.drop_last();
        if translation(before) is Err {
            lemma_translation_error_at(before);
            let j = (translation(before)->Err_0).spec_index() as int;
        }
    }
}

/// A circuit with an opcode that is no assertion of a constraint is not
/// translated, and where no opcode before it fails, the error
/// names that opcode and its kind.
pub proof fn law_unsupported_opcode_refused(opcodes: Seq<Opcode>, i: int)
    requires
        opcodes.len() <= usize::MAX,
        0 <= i < opcodes.len(),
        !(opcodes[i] is AssertZero),
    ensures
        translation(opcodes) is Err,
        (forall|j: int| 0 <= j < i ==> #[trigger] opcode_gate(opcodes[j], j as usize) is Ok)
            ==> translation(opcodes) == Err::<Seq<PlonkDefault>, _>(
            TranslationError::UnsupportedOpcode {
                index: i as usize,
                kind: opcodes[i].spec_kind(),
            },
        ),
{
    if translation(opcodes) is Ok {
        law_translation_aligned(opcodes);
    }
    if forall|j: int| 0 <= j < i ==> #[trigger] opcode_gate(opcodes[j], j as usize) is Ok {
        law_translation_fails_first(opcodes, i);
    }
}

/// Where the first opcode that has no gate holds a
/// constraint that does not fit, the translation fails with the position of that
/// opcode.
pub proof fn law_width_exceeded_at(opcodes: Seq<Opcode>, i: int)
    requires
        opcodes.len() <= usize::MAX,
        0 <= i < opcodes.len(),
        opcodes[i] is AssertZero,
        fitted(opcodes[i]->AssertZero_0@) is Err,
        forall|j: int| 0 <= j < i ==> #[trigger] opcode_gate(opcodes[j], j as usize) is Ok,
    ensures
        translation(opcodes) == Err::<Seq<PlonkDefault>, _>(
            TranslationError::WidthExceeded { index: i as usize },
        ),
{
    law_translation_fails_first(opcodes, i);
}

} // verus!
