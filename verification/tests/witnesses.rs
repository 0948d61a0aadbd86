use acvm::acir::native_types::{Witness as AcvmWitness, WitnessMap};
use acvm::FieldElement;
use plonk_adapter::field::FieldValue;
use plonk_adapter::witness::{value_of, value_on, Witness};

fn sample() -> WitnessMap {
    let mut map = WitnessMap::new();
    map.insert(AcvmWitness(0), FieldElement::from(9u128));
    map.insert(AcvmWitness(1), FieldElement::from(1u128));
    map.insert(AcvmWitness(7), -FieldElement::from(3u128));
    map
}

#[test]
fn value_of_reads_the_map() {
    let map = sample();
    assert_eq!(value_of(&map, Witness(0)), FieldValue::from_u128(9));
    assert_eq!(value_of(&map, Witness(1)), FieldValue::from_u128(1));
    assert_eq!(value_of(&map, Witness(7)), FieldValue::from_u128(3).neg());
}

#[test]
fn value_of_an_absent_witness_is_zero() {
    let map = sample();
    assert_eq!(value_of(&map, Witness(2)), FieldValue::zero());
    assert_eq!(value_of(&WitnessMap::new(), Witness(0)), FieldValue::zero());
}

#[test]
fn value_on_a_free_wire_is_zero() {
    let map = sample();
    assert_eq!(value_on(&map, None), FieldValue::zero());
    assert_eq!(value_on(&map, Some(Witness(0))), FieldValue::from_u128(9));
    assert_eq!(value_on(&map, Some(Witness(3))), FieldValue::zero());
}
