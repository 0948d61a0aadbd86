use acvm::acir::native_types::{Witness as AcvmWitness, WitnessMap};
use acvm::FieldElement;
use plonk_adapter::constraint::Constraint;
use plonk_adapter::field::FieldValue;
use plonk_adapter::gate::{fit, PlonkDefault, WidthExceeded};
use plonk_adapter::witness::Witness;

fn f(x: u128) -> FieldValue {
    FieldValue::from_u128(x)
}

fn w(i: u32) -> Witness {
    Witness(i)
}

fn witnesses(values: &[(u32, u128)]) -> WitnessMap {
    let mut map = WitnessMap::new();
    for (index, value) in values {
        map.insert(AcvmWitness(*index), FieldElement::from(*value));
    }
    map
}

fn example(q_c: FieldValue) -> Constraint {
    Constraint {
        mul_terms: vec![(f(3), w(1), w(2))],
        linear_combinations: vec![(f(5), w(1)), (f(7), w(3))],
        q_c,
    }
}

#[test]
fn default_gate_is_empty() {
    let gate = PlonkDefault::default();
    assert_eq!(gate.a, None);
    assert_eq!(gate.b, None);
    assert_eq!(gate.c, None);
    assert_eq!(gate.ql, FieldValue::zero());
    assert_eq!(gate.qr, FieldValue::zero());
    assert_eq!(gate.qo, FieldValue::zero());
    assert_eq!(gate.qm, FieldValue::zero());
    assert_eq!(gate.qc, FieldValue::zero());
}

#[test]
fn example_constraint_fits() {
    let gate = fit(&example(f(2))).unwrap();
    let expected = PlonkDefault {
        a: Some(w(1)),
        b: Some(w(2)),
        c: Some(w(3)),
        ql: f(5),
        qr: f(0),
        qo: f(7),
        qm: f(3),
        qc: f(2),
    };
    assert_eq!(gate, expected);
}

#[test]
fn example_gate_sums_to_forty_one() {
    let map = witnesses(&[(1, 1), (2, 2), (3, 4)]);
    let gate = fit(&example(f(2))).unwrap();
    assert!(!gate.evaluate(&map));
}

#[test]
fn example_gate_holds_once_the_constant_cancels_the_sum() {
    let map = witnesses(&[(1, 1), (2, 2), (3, 4)]);
    let adjusted = f(2).add(&f(41).neg());
    assert_eq!(adjusted, f(39).neg());
    let gate = fit(&example(adjusted)).unwrap();
    assert_eq!(gate.a, Some(w(1)));
    assert_eq!(gate.b, Some(w(2)));
    assert_eq!(gate.c, Some(w(3)));
    assert_eq!((gate.ql, gate.qr, gate.qo, gate.qm), (f(5), f(0), f(7), f(3)));
    assert!(gate.evaluate(&map));
    let near = fit(&example(f(38).neg())).unwrap();
    assert!(!near.evaluate(&map));
    let far = fit(&example(f(40).neg())).unwrap();
    assert!(!far.evaluate(&map));
}

#[test]
fn example_gate_with_constant_minus_forty_one_is_two_short() {
    let map = witnesses(&[(1, 1), (2, 2), (3, 4)]);
    let gate = fit(&example(f(41).neg())).unwrap();
    assert!(!gate.evaluate(&map));
    let lifted = PlonkDefault { qc: gate.qc.add(&f(2)), ..gate };
    assert!(lifted.evaluate(&map));
}

#[test]
fn fitting_twice_gives_the_same_gate() {
    let constraint = example(f(2));
    assert_eq!(fit(&constraint), fit(&constraint));
    assert_eq!(fit(&constraint), fit(&constraint.clone()));
    let wide = Constraint {
        mul_terms: vec![],
        linear_combinations: vec![(f(1), w(1)), (f(1), w(2)), (f(1), w(3)), (f(1), w(4))],
        q_c: f(0),
    };
    assert_eq!(fit(&wide), fit(&wide));
}

#[test]
fn gate_holds_where_the_constraint_holds() {
    let maps = [
        witnesses(&[(1, 1), (2, 2), (3, 4)]),
        witnesses(&[(1, 0), (2, 5), (3, 0)]),
        witnesses(&[(1, 6), (2, 1)]),
        witnesses(&[]),
    ];
    let constraints = [
        example(f(2)),
        example(f(39).neg()),
        example(f(0)),
        example(f(48).neg()),
        Constraint {
            mul_terms: vec![],
            linear_combinations: vec![(f(1), w(1)), (f(1).neg(), w(2))],
            q_c: f(5),
        },
        Constraint { mul_terms: vec![(f(1), w(2), w(2))], linear_combinations: vec![], q_c: f(25).neg() },
    ];
    let mut held = 0;
    for constraint in &constraints {
        let gate = fit(constraint).unwrap();
        for map in &maps {
            assert_eq!(gate.evaluate(map), constraint.evaluate(map));
            if gate.evaluate(map) {
                held += 1;
            }
        }
    }
    assert_eq!(held, 6);
}

#[test]
fn constraint_evaluates_every_term() {
    let map = witnesses(&[(1, 2), (2, 3), (3, 5), (4, 7), (5, 11)]);
    let constraint = Constraint {
        mul_terms: vec![(f(1), w(1), w(2)), (f(2), w(3), w(4))],
        linear_combinations: vec![(f(1), w(1)), (f(1), w(2)), (f(1), w(3)), (f(1), w(5))],
        q_c: f(97).neg(),
    };
    assert!(constraint.evaluate(&map));
    let other = Constraint { q_c: f(96).neg(), ..constraint };
    assert!(!other.evaluate(&map));
}

#[test]
fn two_quadratic_terms_are_refused() {
    let constraint = Constraint {
        mul_terms: vec![(f(1), w(1), w(2)), (f(1), w(1), w(2))],
        linear_combinations: vec![],
        q_c: f(0),
    };
    assert_eq!(fit(&constraint), Err(WidthExceeded));
}

#[test]
fn four_distinct_witnesses_are_refused() {
    let constraint = Constraint {
        mul_terms: vec![],
        linear_combinations: vec![(f(1), w(1)), (f(2), w(2)), (f(3), w(3)), (f(4), w(4))],
        q_c: f(0),
    };
    assert_eq!(fit(&constraint), Err(WidthExceeded));
}

#[test]
fn three_distinct_witnesses_fit() {
    let constraint = Constraint {
        mul_terms: vec![],
        linear_combinations: vec![(f(1), w(10)), (f(2), w(20)), (f(3), w(30))],
        q_c: f(4),
    };
    let expected = PlonkDefault {
        a: Some(w(10)),
        b: Some(w(20)),
        c: Some(w(30)),
        ql: f(1),
        qr: f(2),
        qo: f(3),
        qm: f(0),
        qc: f(4),
    };
    assert_eq!(fit(&constraint), Ok(expected));
}

#[test]
fn quadratic_term_leaves_one_wire_for_another_witness() {
    let fits = Constraint {
        mul_terms: vec![(f(1), w(1), w(2))],
        linear_combinations: vec![(f(2), w(2)), (f(3), w(3)), (f(4), w(1))],
        q_c: f(0),
    };
    let gate = fit(&fits).unwrap();
    assert_eq!((gate.a, gate.b, gate.c), (Some(w(1)), Some(w(2)), Some(w(3))));
    assert_eq!((gate.ql, gate.qr, gate.qo), (f(4), f(2), f(3)));
    let wide = Constraint {
        mul_terms: vec![(f(1), w(1), w(2))],
        linear_combinations: vec![(f(3), w(3)), (f(4), w(4))],
        q_c: f(0),
    };
    assert_eq!(fit(&wide), Err(WidthExceeded));
}

#[test]
fn linear_term_on_the_left_factor_shares_its_wire() {
    let constraint = Constraint {
        mul_terms: vec![(f(3), w(1), w(2))],
        linear_combinations: vec![(f(5), w(1))],
        q_c: f(0),
    };
    let gate = fit(&constraint).unwrap();
    assert_eq!(gate.a, Some(w(1)));
    assert_eq!(gate.ql, f(5));
    assert_eq!(gate.b, Some(w(2)));
    assert_eq!(gate.qr, f(0));
    assert_eq!(gate.c, None);
    assert_eq!(gate.qo, f(0));
}

#[test]
fn square_takes_both_wires() {
    let constraint = Constraint {
        mul_terms: vec![(f(1), w(4), w(4))],
        linear_combinations: vec![(f(2), w(4)), (f(3), w(5))],
        q_c: f(0),
    };
    let gate = fit(&constraint).unwrap();
    assert_eq!((gate.a, gate.b, gate.c), (Some(w(4)), Some(w(4)), Some(w(5))));
    assert_eq!((gate.ql, gate.qr, gate.qo), (f(2), f(0), f(3)));
    let map = witnesses(&[(4, 3), (5, 1)]);
    assert!(!gate.evaluate(&map));
    let balanced = PlonkDefault { qc: f(18).neg(), ..gate };
    assert!(balanced.evaluate(&map));
}

#[test]
fn later_term_on_a_witness_replaces_the_earlier() {
    let constraint = Constraint {
        mul_terms: vec![],
        linear_combinations: vec![(f(5), w(1)), (f(7), w(1))],
        q_c: f(7).neg(),
    };
    let gate = fit(&constraint).unwrap();
    assert_eq!(gate.a, Some(w(1)));
    assert_eq!(gate.ql, f(7));
    assert_eq!(gate.b, None);
    let map = witnesses(&[(1, 1)]);
    assert!(gate.evaluate(&map));
    assert!(!constraint.evaluate(&map));
}

#[test]
fn witness_zero_is_a_witness() {
    let constraint = Constraint {
        mul_terms: vec![],
        linear_combinations: vec![(f(2), w(0)), (f(3), w(5))],
        q_c: f(0),
    };
    let gate = fit(&constraint).unwrap();
    assert_eq!(gate.a, Some(w(0)));
    assert_eq!(gate.b, Some(w(5)));
    assert_eq!(gate.c, None);
    assert_eq!((gate.ql, gate.qr), (f(2), f(3)));
    let full = Constraint {
        mul_terms: vec![(f(1), w(0), w(0))],
        linear_combinations: vec![(f(1), w(1)), (f(1), w(2))],
        q_c: f(0),
    };
    assert_eq!(fit(&full), Err(WidthExceeded));
}

#[test]
fn constant_alone_fits() {
    let constraint = Constraint { mul_terms: vec![], linear_combinations: vec![], q_c: f(9) };
    let gate = fit(&constraint).unwrap();
    assert_eq!(gate, PlonkDefault { qc: f(9), ..PlonkDefault::default() });
    assert!(!gate.evaluate(&WitnessMap::new()));
    assert!(PlonkDefault::default().evaluate(&WitnessMap::new()));
}

#[test]
fn set_linear_term_takes_the_first_wire_that_admits() {
    let mut gate = PlonkDefault::default();
    assert_eq!(gate.set_linear_term(f(1), w(8)), Ok(()));
    assert_eq!(gate.set_linear_term(f(2), w(9)), Ok(()));
    assert_eq!(gate.set_linear_term(f(3), w(8)), Ok(()));
    assert_eq!((gate.a, gate.b, gate.c), (Some(w(8)), Some(w(9)), None));
    assert_eq!((gate.ql, gate.qr, gate.qo), (f(3), f(2), f(0)));
    assert_eq!(gate.set_linear_term(f(4), w(10)), Ok(()));
    assert_eq!((gate.c, gate.qo), (Some(w(10)), f(4)));
}

#[test]
fn set_linear_term_refused_leaves_the_gate() {
    let mut gate = PlonkDefault::default();
    gate.set_linear_term(f(1), w(1)).unwrap();
    gate.set_linear_term(f(2), w(2)).unwrap();
    gate.set_linear_term(f(3), w(3)).unwrap();
    let before = gate;
    assert_eq!(gate.set_linear_term(f(4), w(4)), Err(WidthExceeded));
    assert_eq!(gate, before);
}

#[test]
fn free_wire_and_absent_witness_count_as_zero() {
    let gate = PlonkDefault {
        a: Some(w(1)),
        b: None,
        c: Some(w(3)),
        ql: f(2),
        qr: f(100),
        qo: f(50),
        qm: f(1000),
        qc: f(6).neg(),
    };
    assert!(gate.evaluate(&witnesses(&[(1, 3)])));
    assert!(!gate.evaluate(&witnesses(&[(1, 3), (3, 1)])));
}
