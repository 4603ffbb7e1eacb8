//! The arithmetic that the library leaves to its host.
//!
//! Sums, products, roots and the like are rounded operations of the machine.
//! The library does not compute them and claims nothing about their values.
//! It takes them from an implementation of `Arithmetic`. Of the operations
//! that the machine rounds correctly it asks that they be functions of
//! their operands, each where it is used, and contracts then name a result
//! by the operation and the operands that produced it: `sum::<K>(a, b)` is
//! the value that `K::sum(a, b)` returns. The tangent and the powers are not
//! named so: of them the contracts say that a result is one that the
//! operation gave. Whatever an implementation promises of its results holds
//! of the values so described, once they have been computed.

use vstd::prelude::*;
use crate::scalar::Scalar;
use crate::scalar::SIGN_BIT;

verus! {

/// The rounded operations of a number system on `Scalar`s.
pub trait Arithmetic {
    /// `a + b`.
    fn sum(a: Scalar, b: Scalar) -> Scalar;

    /// `a - b`.
    fn difference(a: Scalar, b: Scalar) -> Scalar;

    /// `a * b`.
    fn product(a: Scalar, b: Scalar) -> Scalar;

    /// `a / b`.
    fn quotient(a: Scalar, b: Scalar) -> Scalar;

    /// The square root of `a`.
    fn square_root(a: Scalar) -> Scalar;

    /// The tangent of `a`, an angle in radians.
    fn tangent(a: Scalar) -> Scalar;

    /// `a` raised to the power `n`.
    fn power(a: Scalar, n: i32) -> Scalar;

    /// The number nearest to the count `n`.
    fn from_count(n: usize) -> Scalar;
}

/// `K::sum` is a function: the same operands never give two different
/// results.
pub open spec fn sum_defined<K: Arithmetic>() -> bool {
    forall|a: Scalar, b: Scalar, r1: Scalar, r2: Scalar|
        call_ensures(K::sum, (a, b), r1) && call_ensures(K::sum, (a, b), r2) ==> r1 == r2
}

/// `K::difference` is a function: the same operands never give two different
/// results.
pub open spec fn difference_defined<K: Arithmetic>() -> bool {
    forall|a: Scalar, b: Scalar, r1: Scalar, r2: Scalar|
        call_ensures(K::difference, (a, b), r1) && call_ensures(K::difference, (a, b), r2) ==> r1 == r2
}

/// `K::product` is a function: the same operands never give two different
/// results.
pub open spec fn product_defined<K: Arithmetic>() -> bool {
    forall|a: Scalar, b: Scalar, r1: Scalar, r2: Scalar|
        call_ensures(K::product, (a, b), r1) && call_ensures(K::product, (a, b), r2) ==> r1 == r2
}

/// `K::quotient` is a function: the same operands never give two different
/// results.
pub open spec fn quotient_defined<K: Arithmetic>() -> bool {
    forall|a: Scalar, b: Scalar, r1: Scalar, r2: Scalar|
        call_ensures(K::quotient, (a, b), r1) && call_ensures(K::quotient, (a, b), r2) ==> r1 == r2
}

/// `K::square_root` is a function: the same operands never give two different
/// results.
pub open spec fn square_root_defined<K: Arithmetic>() -> bool {
    forall|a: Scalar, r1: Scalar, r2: Scalar|
        call_ensures(K::square_root, (a,), r1) && call_ensures(K::square_root, (a,), r2) ==> r1 == r2
}

/// `K::from_count` is a function: the same operands never give two different
/// results.
pub open spec fn from_count_defined<K: Arithmetic>() -> bool {
    forall|n: usize, r1: Scalar, r2: Scalar|
        call_ensures(K::from_count, (n,), r1) && call_ensures(K::from_count, (n,), r2) ==> r1 == r2
}

/// The five operations that the machine rounds correctly, and that have
/// one result for given operands on every machine, are functions: sum,
/// difference, product, quotient and square root.
pub open spec fn exact<K: Arithmetic>() -> bool {
    &&& sum_defined::<K>()
    &&& difference_defined::<K>()
    &&& product_defined::<K>()
    &&& quotient_defined::<K>()
    &&& square_root_defined::<K>()
}

/// Every operation that the contracts name by its result is a function:
/// the five that the machine rounds correctly, and the number for a count.
/// The tangent and the powers are not among them: their precision is the
/// machine's own affair, and the contracts say of them only that a result
/// is one that the operation gave.
pub open spec fn well_defined<K: Arithmetic>() -> bool {
    &&& exact::<K>()
    &&& from_count_defined::<K>()
}

/// What `K::sum(a, b)` returns.
pub open spec fn sum<K: Arithmetic>(a: Scalar, b: Scalar) -> Scalar {
    choose|r: Scalar| call_ensures(K::sum, (a, b), r)
}

/// What `K::difference(a, b)` returns.
pub open spec fn difference<K: Arithmetic>(a: Scalar, b: Scalar) -> Scalar {
    choose|r: Scalar| call_ensures(K::difference, (a, b), r)
}

/// What `K::product(a, b)` returns.
pub open spec fn product<K: Arithmetic>(a: Scalar, b: Scalar) -> Scalar {
    choose|r: Scalar| call_ensures(K::product, (a, b), r)
}

/// What `K::quotient(a, b)` returns.
pub open spec fn quotient<K: Arithmetic>(a: Scalar, b: Scalar) -> Scalar {
    choose|r: Scalar| call_ensures(K::quotient, (a, b), r)
}

/// What `K::square_root(a)` returns.
pub open spec fn square_root<K: Arithmetic>(a: Scalar) -> Scalar {
    choose|r: Scalar| call_ensures(K::square_root, (a,), r)
}

/// `t` is a result that `K::tangent(a)` gave.
pub open spec fn tangent_of<K: Arithmetic>(a: Scalar, t: Scalar) -> bool {
    call_ensures(K::tangent, (a,), t)
}

/// `p` is a result that `K::power(a, n)` gave.
pub open spec fn power_of<K: Arithmetic>(a: Scalar, n: i32, p: Scalar) -> bool {
    call_ensures(K::power, (a, n), p)
}

/// What `K::from_count(n)` returns.
pub open spec fn from_count<K: Arithmetic>(n: usize) -> Scalar {
    choose|r: Scalar| call_ensures(K::from_count, (n,), r)
}

/// The value with the opposite sign. This one needs no rounding: it turns
/// the sign bit and leaves the rest, for zeros, infinities and NaN alike.
pub open spec fn negation(a: Scalar) -> Scalar {
    if a.bits >= SIGN_BIT {
        Scalar { bits: (a.bits - SIGN_BIT) as u32 }
    } else {
        Scalar { bits: (a.bits + SIGN_BIT) as u32 }
    }
}

/// `a + b`.
pub fn plus<K: Arithmetic>(a: Scalar, b: Scalar) -> (r: Scalar)
    requires
        sum_defined::<K>(),
    ensures
        r == sum::<K>(a, b),
        call_ensures(K::sum, (a, b), r),
{
    K::sum(a, b)
}

/// `a - b`.
pub fn minus<K: Arithmetic>(a: Scalar, b: Scalar) -> (r: Scalar)
    requires
        difference_defined::<K>(),
    ensures
        r == difference::<K>(a, b),
        call_ensures(K::difference, (a, b), r),
{
    K::difference(a, b)
}

/// `a * b`.
pub fn times<K: Arithmetic>(a: Scalar, b: Scalar) -> (r: Scalar)
    requires
        product_defined::<K>(),
    ensures
        r == product::<K>(a, b),
        call_ensures(K::product, (a, b), r),
{
    K::product(a, b)
}

/// `a / b`.
pub fn over<K: Arithmetic>(a: Scalar, b: Scalar) -> (r: Scalar)
    requires
        quotient_defined::<K>(),
    ensures
        r == quotient::<K>(a, b),
        call_ensures(K::quotient, (a, b), r),
{
    K::quotient(a, b)
}

/// The square root of `a`.
pub fn sqrt<K: Arithmetic>(a: Scalar) -> (r: Scalar)
    requires
        square_root_defined::<K>(),
    ensures
        r == square_root::<K>(a),
        call_ensures(K::square_root, (a,), r),
{
    K::square_root(a)
}

/// The tangent of `a`, as the machine gives it this time.
pub fn tan<K: Arithmetic>(a: Scalar) -> (r: Scalar)
    ensures
        tangent_of::<K>(a, r),
{
    K::tangent(a)
}

/// `a` raised to the power `n`, as the machine gives it this time.
pub fn powi<K: Arithmetic>(a: Scalar, n: i32) -> (r: Scalar)
    ensures
        power_of::<K>(a, n, r),
{
    K::power(a, n)
}

/// The number nearest to the count `n`.
pub fn count_to_scalar<K: Arithmetic>(n: usize) -> (r: Scalar)
    requires
        from_count_defined::<K>(),
    ensures
        r == from_count::<K>(n),
        call_ensures(K::from_count, (n,), r),
{
    K::from_count(n)
}

/// The value with the opposite sign.
pub fn negate(a: Scalar) -> (r: Scalar)
    ensures
        r == negation(a),
{
    if a.bits >= SIGN_BIT {
        Scalar { bits: a.bits - SIGN_BIT }
    } else {
        Scalar { bits: a.bits + SIGN_BIT }
    }
}

/// Turning the sign twice gives the value back.
pub proof fn lemma_negation_involutive(a: Scalar)
    ensures
        negation(negation(a)) == a,
{
}

} // verus!
