//! The numbers that matrices and networks compute with.
//!
//! The library never looks inside a number. It only adds, subtracts and
//! multiplies, and it starts every accumulation from the type's default value.
//! Nothing is assumed of how that arithmetic rounds, overflows or propagates
//! special values: contracts say of each result that it is *a* value that the
//! operation may return on the operands it was given. What more is known of
//! the arithmetic of a number type, such as that it has one result only, or
//! that zero times a number is zero, is for the caller to add; the lemmas of
//! this library take such facts as their hypotheses.

use core::ops::Add;
use core::ops::Mul;
use core::ops::Sub;
use vstd::prelude::*;

verus! {

/// A number type: copyable, with a default value that serves as zero, and closed
/// under `+`, `-` and `*`. Every type with these operations is one.
pub trait Scalar: Copy + Default + Add<Output = Self> + Sub<Output = Self> + Mul<Output = Self> {

}

impl<T: Copy + Default + Add<Output = T> + Sub<Output = T> + Mul<Output = T>> Scalar for T {

}

/// `z` is a value that `T::default()` may return. For the primitive number types
/// this is zero.
pub open spec fn is_zero<T: Scalar>(z: T) -> bool {
    call_ensures(T::default, (), z)
}

/// `r` is a value that `a + b` may return.
pub open spec fn is_sum<T: Scalar>(a: T, b: T, r: T) -> bool {
    call_ensures(<T as Add>::add, (a, b), r)
}

/// `r` is a value that `a - b` may return.
pub open spec fn is_difference<T: Scalar>(a: T, b: T, r: T) -> bool {
    call_ensures(<T as Sub>::sub, (a, b), r)
}

/// `r` is a value that `a * b` may return.
pub open spec fn is_product<T: Scalar>(a: T, b: T, r: T) -> bool {
    call_ensures(<T as Mul>::mul, (a, b), r)
}

/// Addition, subtraction and multiplication accept every pair of operands.
///
/// This holds of floating-point numbers and of wrapping integers. It does not
/// hold of the primitive integers, whose operators refuse to overflow.
///
/// Matrix arithmetic asks for less: that the operations accept the entries at
/// hand. A network asks for this, because the numbers it computes with depend
/// on all that it has learnt.
pub open spec fn arithmetic_is_total<T: Scalar>() -> bool {
    &&& forall|a: T, b: T| #[trigger] call_requires(<T as Add>::add, (a, b))
    &&& forall|a: T, b: T| #[trigger] call_requires(<T as Sub>::sub, (a, b))
    &&& forall|a: T, b: T| #[trigger] call_requires(<T as Mul>::mul, (a, b))
}

/// The relation between the arguments of an executable function and the values
/// it may return on them.
pub open spec fn graph_of<T, F: Fn(T) -> T>(f: F) -> spec_fn(T, T) -> bool {
    |x: T, y: T| call_ensures(f, (x,), y)
}

/// The function `f` accepts every argument.
pub open spec fn accepts_all<T, F: Fn(T) -> T>(f: F) -> bool {
    forall|x: T| #[trigger] call_requires(f, (x,))
}

/// `y` is a value that the relation `f` has at zero.
pub open spec fn is_value_at_zero<T: Scalar>(f: spec_fn(T, T) -> bool, y: T) -> bool {
    exists|z: T| #![trigger f(z, y)] is_zero(z) && f(z, y)
}

} // verus!
