//! Values of the BN254 scalar field.
//!
//! A [`FieldValue`] keeps the big-endian bytes of a field element, so that it is a
//! plain value that can be copied and compared. The bytes always spell a number
//! below the modulus, so two values are equal exactly when they stand for the same
//! integer. The arithmetic is carried out by `acvm`'s `FieldElement`; the contracts
//! of the private functions of this module say what it computes and are taken on
//! trust. A value goes to `acvm` through `FieldElement::from_be_bytes_reduce` and
//! comes back through `FieldElement::to_be_bytes`, which gives the thirty-two bytes
//! of the element's integer below the modulus.

use acvm::FieldElement;
use vstd::arithmetic::div_mod::{lemma_add_mod_noop, lemma_mul_mod_noop_left};
use vstd::array::spec_array_fill_for_copy_type;
use vstd::prelude::*;

verus! {

/// The order of the BN254 scalar field, a prime.
pub open spec fn modulus() -> int {
    21888242871839275222246405745257275088548364400416034343698204186575808495617int
}

/// The natural number that `bytes` spell in base 256, most significant byte first.
pub open spec fn be_value(bytes: Seq<u8>) -> nat
    decreases bytes.len(),
{
    if bytes.len() == 0 {
        0
    } else {
        256 * be_value(bytes.drop_last()) + bytes.last() as nat
    }
}

/// An element of the scalar field.
#[derive(Clone, Copy, Debug, PartialEq, Eq)]
pub struct FieldValue {
    pub(crate) bytes: [u8; 32],
}

impl FieldValue {
    /// The bytes spell a number below the modulus. This holds of every value that
    /// a program holds.
    #[verifier::type_invariant]
    pub closed spec fn canonical(self) -> bool {
        be_value(self.bytes@) < modulus()
    }
}

impl View for FieldValue {
    type V = int;

    /// The element as an integer in `0 .. modulus()`.
    closed spec fn view(&self) -> int {
        be_value(self.bytes@) as int % modulus()
    }
}

/// The additive identity of the field: thirty-two zero bytes.
pub closed spec fn zero_value() -> FieldValue {
    FieldValue { bytes: spec_array_fill_for_copy_type::<u8, 32>(0u8) }
}

/// Bytes that are all zero spell zero.
proof fn lemma_zero_bytes(bytes: Seq<u8>)
    requires
        forall|i: int| 0 <= i < bytes.len() ==> bytes[i] == 0,
    ensures
        be_value(bytes) == 0,
    decreases bytes.len(),
{
    if bytes.len() > 0 {
        lemma_zero_bytes(bytes.drop_last());
    }
}

/// The additive identity stands for the integer zero, in canonical bytes.
pub proof fn lemma_zero_value()
    ensures
        zero_value()@ == 0,
        zero_value().canonical(),
{
    lemma_zero_bytes(zero_value().bytes@);
}

/// Bytes of one length that spell the same number are the same bytes.
proof fn lemma_be_value_injective(first: Seq<u8>, second: Seq<u8>)
    requires
        first.len() == second.len(),
        be_value(first) == be_value(second),
    ensures
        first == second,
    decreases first.len(),
{
    if first.len() > 0 {
        lemma_be_value_injective(first.drop_last(), second.drop_last());
        assert(first =~= first.drop_last().push(first.last()));
        assert(second =~= second.drop_last().push(second.last()));
    }
    assert(first =~= second);
}

/// Two values that stand for the same integer are the same value.
pub proof fn lemma_equal_views(first: FieldValue, second: FieldValue)
    requires
        first.canonical(),
        second.canonical(),
        first@ == second@,
    ensures
        first == second,
{
    lemma_be_value_injective(first.bytes@, second.bytes@);
    assert(first.bytes =~= second.bytes);
}

/// `FieldElement::from(u128)`: the field element of an integer below 2^128, which
/// is below the modulus, so nothing is reduced.
#[verifier::external_body]
fn acvm_from_u128(x: u128) -> (r: FieldValue)
    ensures
        r.canonical(),
        r@ == x,
{
    FieldValue { bytes: FieldElement::from(x).to_be_bytes().try_into().unwrap() }
}

/// `FieldElement::from_be_bytes_reduce`: the field element of the integer that
/// the bytes spell, reduced by the modulus.
#[verifier::external_body]
fn acvm_from_be_bytes(bytes: &[u8; 32]) -> (r: FieldValue)
    ensures
        r.canonical(),
        r@ == be_value(bytes@) as int % modulus(),
{
    let x = FieldElement::from_be_bytes_reduce(bytes);
    FieldValue { bytes: x.to_be_bytes().try_into().unwrap() }
}

/// `Add for FieldElement`: addition in the field.
#[verifier::external_body]
fn acvm_add(a: &FieldValue, b: &FieldValue) -> (r: FieldValue)
    ensures
        r.canonical(),
        r@ == (a@ + b@) % modulus(),
{
    let x = FieldElement::from_be_bytes_reduce(&a.bytes);
    let y = FieldElement::from_be_bytes_reduce(&b.bytes);
    FieldValue { bytes: (x + y).to_be_bytes().try_into().unwrap() }
}

/// `Mul for FieldElement`: multiplication in the field.
#[verifier::external_body]
fn acvm_mul(a: &FieldValue, b: &FieldValue) -> (r: FieldValue)
    ensures
        r.canonical(),
        r@ == (a@ * b@) % modulus(),
{
    let x = FieldElement::from_be_bytes_reduce(&a.bytes);
    let y = FieldElement::from_be_bytes_reduce(&b.bytes);
    FieldValue { bytes: (x * y).to_be_bytes().try_into().unwrap() }
}

/// `Neg for FieldElement`: the additive inverse in the field.
#[verifier::external_body]
fn acvm_neg(a: &FieldValue) -> (r: FieldValue)
    ensures
        r.canonical(),
        r@ == (-a@) % modulus(),
{
    let x = FieldElement::from_be_bytes_reduce(&a.bytes);
    FieldValue { bytes: (-x).to_be_bytes().try_into().unwrap() }
}

/// `FieldElement::is_zero`: whether the element is the additive identity.
#[verifier::external_body]
fn acvm_is_zero(a: &FieldValue) -> (r: bool)
    ensures
        r == (a@ == 0),
{
    FieldElement::from_be_bytes_reduce(&a.bytes).is_zero()
}

impl FieldValue {
    /// The additive identity.
    pub fn zero() -> (r: FieldValue)
        ensures
            r == zero_value(),
            r@ == 0,
    {
        let bytes = [0u8; 32];
        proof {
            lemma_zero_bytes(bytes@);
            lemma_zero_value();
        }
        FieldValue { bytes }
    }

    /// The multiplicative identity.
    pub fn one() -> (r: FieldValue)
        ensures
            r@ == 1,
    {
        acvm_from_u128(1)
    }

    /// The field element of `x`.
    pub fn from_u128(x: u128) -> (r: FieldValue)
        ensures
            r@ == x,
    {
        acvm_from_u128(x)
    }

    /// The field element of the integer that `bytes` spell, most significant byte
    /// first, reduced by the modulus.
    pub fn from_be_bytes(bytes: &[u8; 32]) -> (r: FieldValue)
        ensures
            r@ == be_value(bytes@) as int % modulus(),
    {
        acvm_from_be_bytes(bytes)
    }

    /// The bytes that spell the element, most significant byte first.
    pub fn to_be_bytes(&self) -> (r: [u8; 32])
        ensures
            be_value(r@) == self@,
    {
        proof {
            use_type_invariant(self);
        }
        self.bytes
    }

    /// The sum of the two elements.
    pub fn add(&self, other: &FieldValue) -> (r: FieldValue)
        ensures
            r@ == (self@ + other@) % modulus(),
    {
        acvm_add(self, other)
    }

    /// The product of the two elements.
    pub fn mul(&self, other: &FieldValue) -> (r: FieldValue)
        ensures
            r@ == (self@ * other@) % modulus(),
    {
        acvm_mul(self, other)
    }

    /// The additive inverse of the element.
    pub fn neg(&self) -> (r: FieldValue)
        ensures
            r@ == (-self@) % modulus(),
    {
        acvm_neg(self)
    }

    /// Whether the element is the additive identity.
    pub fn is_zero(&self) -> (r: bool)
        ensures
            r == (self@ == 0),
    {
        acvm_is_zero(self)
    }

    /// Whether the element is the multiplicative identity.
    pub fn is_one(&self) -> (r: bool)
        ensures
            r == (self@ == 1),
    {
        let minus_one = FieldValue::one().neg();
        self.add(&minus_one).is_zero()
    }

    /// Every element is an integer from zero up to, and not including, the modulus.
    pub proof fn lemma_view_range(self)
        ensures
            0 <= self@ < modulus(),
    {
    }

    /// `self * x * y` in the field.
    pub fn mul3(&self, x: &FieldValue, y: &FieldValue) -> (r: FieldValue)
        ensures
            r@ == (self@ * x@ * y@) % modulus(),
    {
        let first = self.mul(x);
        proof {
            lemma_mul_mod_noop_left(self@ * x@, y@, modulus());
        }
        first.mul(y)
    }
}

/// Reducing two integers before they are added does not change the reduced sum.
pub proof fn lemma_add_congruent(a: int, sum: int, b: int, term: int)
    requires
        a == sum % modulus(),
        b == term % modulus(),
    ensures
        (a + b) % modulus() == (sum + term) % modulus(),
{
    lemma_add_mod_noop(sum, term, modulus());
}

} // verus!
