//! A small feed-forward neural network on fixed-size matrices.
//!
//! Every matrix carries its shape in its type and lives in an array, so that
//! a network can be built, run and trained without allocating. The number type
//! is a parameter: any copyable type with a default value and `+`, `-`, `*`.
//!
//! - [`scalar`] says what is asked of the numbers.
//! - [`grid`] holds the mathematical model of a matrix, and the relations in
//!   which the contracts of matrix arithmetic are written.
//! - [`matrix`] holds the matrices and their arithmetic.
//! - [`activations`] holds the activation function of a network.
//! - [`network`] holds the layers, the forward and the backward pass, and
//!   training.
//! - [`algebra`], [`blank`] and [`determinism`] prove what follows from the
//!   contracts: the identities of matrix arithmetic, what a network of zero
//!   weights puts out, and that every operation has one result where the
//!   arithmetic of the numbers has.

pub mod activations;
pub mod algebra;
pub mod blank;
pub mod determinism;
pub mod grid;
pub mod matrix;
pub mod network;
pub mod scalar;
