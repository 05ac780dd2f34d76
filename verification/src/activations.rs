//! Activation functions.

use crate::scalar::accepts_all;
use crate::scalar::graph_of;
use vstd::prelude::*;

verus! {

/// An activation function together with its derivative.
///
/// The derivative is written in terms of the activation's *output*: a layer
/// applies it to values that the activation has already produced. For the
/// logistic function that is `y * (1 - y)`.
pub struct Activation<F, D> {
    pub function: F,
    pub derivative: D,
}

impl<F, D> Activation<F, D> {
    /// The arguments and results of the activation function.
    pub open spec fn response<T>(&self) -> spec_fn(T, T) -> bool where F: Fn(T) -> T {
        graph_of(self.function)
    }

    /// The arguments and results of the derivative.
    pub open spec fn slope<T>(&self) -> spec_fn(T, T) -> bool where D: Fn(T) -> T {
        graph_of(self.derivative)
    }

    /// The activation function accepts every number.
    pub open spec fn function_is_total<T>(&self) -> bool where F: Fn(T) -> T {
        accepts_all::<T, F>(self.function)
    }

    /// The derivative accepts every number.
    pub open spec fn derivative_is_total<T>(&self) -> bool where D: Fn(T) -> T {
        accepts_all::<T, D>(self.derivative)
    }
}

} // verus!
