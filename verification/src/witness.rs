//! Witness identifiers and witness assignments.
//!
//! The assignment is `acvm`'s `WitnessMap`, kept as it is. What it holds is named
//! by [`witness_values`], and the one lookup that the library makes is stated over
//! that name and taken on trust.

use crate::field::FieldValue;
use acvm::acir::native_types::WitnessMap;
use vstd::prelude::*;

verus! {

/// The identifier of one witness. Every number is a witness of its own: a wire
/// that holds none is `None`, not a reserved number.
#[derive(Clone, Copy, Debug, PartialEq, Eq, Structural)]
pub struct Witness(pub u32);

/// `acvm::acir::native_types::WitnessMap`, an ordered map from witnesses to field
/// elements.
#[verifier::external_type_specification]
#[verifier::external_body]
pub struct ExWitnessMap(WitnessMap);

/// What a witness map holds: for the index of each witness that has a value, that
/// value as an integer from zero up to the modulus.
pub uninterp spec fn witness_values(map: WitnessMap) -> Map<u32, int>;

/// The value that `values` gives to `witness`, zero where it gives none.
pub open spec fn witness_value(values: Map<u32, int>, witness: Witness) -> int {
    if values.contains_key(witness.0) {
        values[witness.0]
    } else {
        0
    }
}

/// The value on a wire: that of its witness, zero for a wire that holds none.
pub open spec fn wire_value(values: Map<u32, int>, wire: Option<Witness>) -> int {
    match wire {
        Some(witness) => witness_value(values, witness),
        None => 0,
    }
}

/// `WitnessMap::get`: the element stored for the witness, if there is one.
#[verifier::external_body]
fn acvm_get(map: &WitnessMap, witness: Witness) -> (r: Option<FieldValue>)
    ensures
        match r {
            Some(value) => value.canonical() && witness_values(*map).contains_key(witness.0)
                && value@ == witness_values(*map)[witness.0],
            None => !witness_values(*map).contains_key(witness.0),
        },
{
    match map.get(&acvm::acir::native_types::Witness(witness.0)) {
        Some(value) => Some(FieldValue { bytes: value.to_be_bytes().try_into().unwrap() }),
        None => None,
    }
}

/// The value that `map` gives to `witness`, zero where it gives none.
pub fn value_of(map: &WitnessMap, witness: Witness) -> (r: FieldValue)
    ensures
        r@ == witness_value(witness_values(*map), witness),
{
    match acvm_get(map, witness) {
        Some(value) => value,
        None => FieldValue::zero(),
    }
}

/// The value on `wire` under `map`: that of its witness, zero for a wire that holds
/// none or whose witness has no value.
pub fn value_on(map: &WitnessMap, wire: Option<Witness>) -> (r: FieldValue)
    ensures
        r@ == wire_value(witness_values(*map), wire),
{
    match wire {
        Some(witness) => value_of(map, witness),
        None => FieldValue::zero(),
    }
}

} // verus!
