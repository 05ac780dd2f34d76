//! One result only.
//!
//! The contracts of this library are relations: a result is *a* value that
//! the arithmetic may give. Where the arithmetic of the numbers gives one
//! value only, each of these relations holds of one result only, so that the
//! contracts say exactly what is computed. The lemmas below show this for the
//! relations between grids, for a stage of a network, and for training.

use crate::grid::as_column;
use crate::grid::column;
use crate::grid::is_difference_grid;
use crate::grid::is_dot;
use crate::grid::is_grid;
use crate::grid::is_hadamard_grid;
use crate::grid::is_image_grid;
use crate::grid::is_product_grid;
use crate::grid::is_scaled_grid;
use crate::grid::is_sum_grid;
use crate::grid::is_zero_grid;
use crate::grid::transposed;
use crate::network::is_activation;
use crate::network::is_activation_by;
use crate::network::is_correction;
use crate::network::is_correction_by;
use crate::network::Layer;
use crate::network::ProcessLayer;
use crate::scalar::is_difference;
use crate::scalar::is_product;
use crate::scalar::is_sum;
use crate::scalar::is_zero;
use crate::scalar::Scalar;
use vstd::prelude::*;

verus! {

/// There is one zero, and sums, differences and products have one value.
pub open spec fn arithmetic_is_deterministic<T: Scalar>() -> bool {
    &&& forall|y: T, z: T| #![trigger is_zero(y), is_zero(z)] is_zero(y) && is_zero(z) ==> y == z
    &&& forall|a: T, b: T, y: T, z: T|
        #![trigger is_sum(a, b, y), is_sum(a, b, z)]
        is_sum(a, b, y) && is_sum(a, b, z) ==> y == z
    &&& forall|a: T, b: T, y: T, z: T|
        #![trigger is_difference(a, b, y), is_difference(a, b, z)]
        is_difference(a, b, y) && is_difference(a, b, z) ==> y == z
    &&& forall|a: T, b: T, y: T, z: T|
        #![trigger is_product(a, b, y), is_product(a, b, z)]
        is_product(a, b, y) && is_product(a, b, z) ==> y == z
}

/// The relation `f` has one value on every argument.
pub open spec fn is_single_valued<T>(f: spec_fn(T, T) -> bool) -> bool {
    forall|x: T, y: T, z: T| #![trigger f(x, y), f(x, z)] f(x, y) && f(x, z) ==> y == z
}

/// Two grids of one shape with the same entries are the same grid.
pub proof fn lemma_same_entries<T>(r: Seq<Seq<T>>, s: Seq<Seq<T>>, rows: nat, cols: nat)
    requires
        is_grid(r, rows, cols),
        is_grid(s, rows, cols),
        forall|i: int, j: int| 0 <= i < rows && 0 <= j < cols ==> r[i][j] == s[i][j],
    ensures
        r == s,
{
    assert forall|i: int| 0 <= i < rows implies r[i] == s[i] by {
        assert(r[i].len() == cols);
        assert(s[i].len() == cols);
        assert forall|j: int| 0 <= j < cols implies r[i][j] == s[i][j] by {
        }
        assert(r[i] =~= s[i]);
    }
    assert(r =~= s);
}

/// A grid of a given shape whose entries are zero is the only one.
pub proof fn lemma_zero_grid_is_unique<T: Scalar>(
    r: Seq<Seq<T>>,
    s: Seq<Seq<T>>,
    rows: nat,
    cols: nat,
)
    requires
        arithmetic_is_deterministic::<T>(),
        is_grid(r, rows, cols),
        is_grid(s, rows, cols),
        is_zero_grid(r),
        is_zero_grid(s),
    ensures
        r == s,
{
    assert forall|i: int, j: int| 0 <= i < rows && 0 <= j < cols implies r[i][j] == s[i][j] by {
        assert(is_zero(r[i][j]));
        assert(is_zero(s[i][j]));
    }
    lemma_same_entries(r, s, rows, cols);
}

/// Two grids have one entrywise sum.
pub proof fn lemma_sum_grid_is_unique<T: Scalar>(
    a: Seq<Seq<T>>,
    b: Seq<Seq<T>>,
    r: Seq<Seq<T>>,
    s: Seq<Seq<T>>,
    rows: nat,
    cols: nat,
)
    requires
        arithmetic_is_deterministic::<T>(),
        is_grid(r, rows, cols),
        is_grid(s, rows, cols),
        is_sum_grid(a, b, r),
        is_sum_grid(a, b, s),
    ensures
        r == s,
{
    assert forall|i: int, j: int| 0 <= i < rows && 0 <= j < cols implies r[i][j] == s[i][j] by {
        assert(is_sum(a[i][j], b[i][j], r[i][j]));
        assert(is_sum(a[i][j], b[i][j], s[i][j]));
    }
    lemma_same_entries(r, s, rows, cols);
}

/// Two grids have one entrywise difference.
pub proof fn lemma_difference_grid_is_unique<T: Scalar>(
    a: Seq<Seq<T>>,
    b: Seq<Seq<T>>,
    r: Seq<Seq<T>>,
    s: Seq<Seq<T>>,
    rows: nat,
    cols: nat,
)
    requires
        arithmetic_is_deterministic::<T>(),
        is_grid(r, rows, cols),
        is_grid(s, rows, cols),
        is_difference_grid(a, b, r),
        is_difference_grid(a, b, s),
    ensures
        r == s,
{
    assert forall|i: int, j: int| 0 <= i < rows && 0 <= j < cols implies r[i][j] == s[i][j] by {
        assert(is_difference(a[i][j], b[i][j], r[i][j]));
        assert(is_difference(a[i][j], b[i][j], s[i][j]));
    }
    lemma_same_entries(r, s, rows, cols);
}

/// Two grids have one entrywise product.
pub proof fn lemma_hadamard_grid_is_unique<T: Scalar>(
    a: Seq<Seq<T>>,
    b: Seq<Seq<T>>,
    r: Seq<Seq<T>>,
    s: Seq<Seq<T>>,
    rows: nat,
    cols: nat,
)
    requires
        arithmetic_is_deterministic::<T>(),
        is_grid(r, rows, cols),
        is_grid(s, rows, cols),
        is_hadamard_grid(a, b, r),
        is_hadamard_grid(a, b, s),
    ensures
        r == s,
{
    assert forall|i: int, j: int| 0 <= i < rows && 0 <= j < cols implies r[i][j] == s[i][j] by {
        assert(is_product(a[i][j], b[i][j], r[i][j]));
        assert(is_product(a[i][j], b[i][j], s[i][j]));
    }
    lemma_same_entries(r, s, rows, cols);
}

/// A grid has one multiple by a factor.
pub proof fn lemma_scaled_grid_is_unique<T: Scalar>(
    a: Seq<Seq<T>>,
    factor: T,
    r: Seq<Seq<T>>,
    s: Seq<Seq<T>>,
    rows: nat,
    cols: nat,
)
    requires
        arithmetic_is_deterministic::<T>(),
        is_grid(r, rows, cols),
        is_grid(s, rows, cols),
        is_scaled_grid(a, factor, r),
        is_scaled_grid(a, factor, s),
    ensures
        r == s,
{
    assert forall|i: int, j: int| 0 <= i < rows && 0 <= j < cols implies r[i][j] == s[i][j] by {
        assert(is_product(a[i][j], factor, r[i][j]));
        assert(is_product(a[i][j], factor, s[i][j]));
    }
    lemma_same_entries(r, s, rows, cols);
}

/// A grid has one image under a relation with one value on every argument.
pub proof fn lemma_image_grid_is_unique<T>(
    a: Seq<Seq<T>>,
    f: spec_fn(T, T) -> bool,
    r: Seq<Seq<T>>,
    s: Seq<Seq<T>>,
    rows: nat,
    cols: nat,
)
    requires
        is_single_valued(f),
        is_grid(r, rows, cols),
        is_grid(s, rows, cols),
        is_image_grid(a, f, r),
        is_image_grid(a, f, s),
    ensures
        r == s,
{
    assert forall|i: int, j: int| 0 <= i < rows && 0 <= j < cols implies r[i][j] == s[i][j] by {
        assert(f(a[i][j], r[i][j]));
        assert(f(a[i][j], s[i][j]));
    }
    lemma_same_entries(r, s, rows, cols);
}

/// Two sequences have one dot product over their first `n` entries.
pub proof fn lemma_dot_is_unique<T: Scalar>(a: Seq<T>, b: Seq<T>, n: nat, y: T, z: T)
    requires
        arithmetic_is_deterministic::<T>(),
        is_dot(a, b, n, y),
        is_dot(a, b, n, z),
    ensures
        y == z,
    decreases n,
{
    if n > 0 {
        let (prev_y, term_y) = choose|prev: T, term: T|
            #![trigger is_sum(prev, term, y)]
            is_dot(a, b, (n - 1) as nat, prev) && is_product(a[n - 1], b[n - 1], term) && is_sum(
                prev,
                term,
                y,
            );
        let (prev_z, term_z) = choose|prev: T, term: T|
            #![trigger is_sum(prev, term, z)]
            is_dot(a, b, (n - 1) as nat, prev) && is_product(a[n - 1], b[n - 1], term) && is_sum(
                prev,
                term,
                z,
            );
        lemma_dot_is_unique(a, b, (n - 1) as nat, prev_y, prev_z);
        assert(term_y == term_z);
    }
}

/// Two grids have one matrix product.
pub proof fn lemma_product_grid_is_unique<T: Scalar>(
    a: Seq<Seq<T>>,
    b: Seq<Seq<T>>,
    r: Seq<Seq<T>>,
    s: Seq<Seq<T>>,
    rows: nat,
    cols: nat,
)
    requires
        arithmetic_is_deterministic::<T>(),
        is_grid(r, rows, cols),
        is_grid(s, rows, cols),
        is_product_grid(a, b, r),
        is_product_grid(a, b, s),
    ensures
        r == s,
{
    assert forall|i: int, j: int| 0 <= i < rows && 0 <= j < cols implies r[i][j] == s[i][j] by {
        assert(is_dot(a[i], column(b, j), b.len(), r[i][j]));
        assert(is_dot(a[i], column(b, j), b.len(), s[i][j]));
        lemma_dot_is_unique(a[i], column(b, j), b.len(), r[i][j], s[i][j]);
    }
    lemma_same_entries(r, s, rows, cols);
}

/// Where the arithmetic and the activation function have one value, a stage
/// puts out one column.
pub proof fn lemma_activation_is_unique<T: Scalar>(
    weights: Seq<Seq<T>>,
    biases: Seq<Seq<T>>,
    feed: Seq<Seq<T>>,
    function: spec_fn(T, T) -> bool,
    out: Seq<Seq<T>>,
    other_out: Seq<Seq<T>>,
    rows: nat,
)
    requires
        arithmetic_is_deterministic::<T>(),
        is_single_valued(function),
        weights.len() == rows,
        is_grid(out, rows, 1),
        is_grid(other_out, rows, 1),
        is_activation(weights, biases, feed, function, out),
        is_activation(weights, biases, feed, function, other_out),
    ensures
        out == other_out,
{
    let (weighted, shifted) = choose|weighted: Seq<Seq<T>>, shifted: Seq<Seq<T>>|
        is_activation_by(weights, biases, feed, function, weighted, shifted, out);
    let (other_weighted, other_shifted) = choose|weighted: Seq<Seq<T>>, shifted: Seq<Seq<T>>|
        is_activation_by(weights, biases, feed, function, weighted, shifted, other_out);
    lemma_product_grid_is_unique(weights, feed, weighted, other_weighted, rows, 1);
    lemma_sum_grid_is_unique(weighted, biases, shifted, other_shifted, rows, 1);
    lemma_image_grid_is_unique(shifted, function, out, other_out, rows, 1);
}

/// Where the arithmetic and the derivative have one value, a stage is
/// corrected in one way: its new weights and biases, and the errors and
/// gradients it hands back, are the only ones.
pub proof fn lemma_correction_is_unique<T: Scalar>(
    weights: Seq<Seq<T>>,
    biases: Seq<Seq<T>>,
    data: Seq<Seq<T>>,
    errors: Seq<Seq<T>>,
    gradients: Seq<Seq<T>>,
    l_rate: T,
    derivative: spec_fn(T, T) -> bool,
    corrected: (Seq<Seq<T>>, Seq<Seq<T>>),
    back: (Seq<Seq<T>>, Seq<Seq<T>>),
    other_corrected: (Seq<Seq<T>>, Seq<Seq<T>>),
    other_back: (Seq<Seq<T>>, Seq<Seq<T>>),
    rows: nat,
    neurons: nat,
)
    requires
        arithmetic_is_deterministic::<T>(),
        is_single_valued(derivative),
        weights.len() == rows,
        data.len() == neurons,
        is_grid(corrected.0, rows, neurons),
        is_grid(corrected.1, rows, 1),
        is_grid(back.0, neurons, 1),
        is_grid(back.1, neurons, 1),
        is_grid(other_corrected.0, rows, neurons),
        is_grid(other_corrected.1, rows, 1),
        is_grid(other_back.0, neurons, 1),
        is_grid(other_back.1, neurons, 1),
        is_correction(
            weights,
            biases,
            data,
            errors,
            gradients,
            l_rate,
            derivative,
            corrected,
            back,
        ),
        is_correction(
            weights,
            biases,
            data,
            errors,
            gradients,
            l_rate,
            derivative,
            other_corrected,
            other_back,
        ),
    ensures
        corrected == other_corrected,
        back == other_back,
{
    let (products, deltas, outer) = choose|
        products: Seq<Seq<T>>,
        deltas: Seq<Seq<T>>,
        outer: Seq<Seq<T>>,
    |
        is_correction_by(
            weights,
            biases,
            data,
            errors,
            gradients,
            l_rate,
            derivative,
            products,
            deltas,
            outer,
            corrected,
            back,
        );
    let (other_products, other_deltas, other_outer) = choose|
        products: Seq<Seq<T>>,
        deltas: Seq<Seq<T>>,
        outer: Seq<Seq<T>>,
    |
        is_correction_by(
            weights,
            biases,
            data,
            errors,
            gradients,
            l_rate,
            derivative,
            products,
            deltas,
            outer,
            other_corrected,
            other_back,
        );
    lemma_hadamard_grid_is_unique(gradients, errors, products, other_products, rows, 1);
    lemma_scaled_grid_is_unique(products, l_rate, deltas, other_deltas, rows, 1);
    lemma_product_grid_is_unique(deltas, transposed(data, 1), outer, other_outer, rows, neurons);
    lemma_sum_grid_is_unique(weights, outer, corrected.0, other_corrected.0, rows, neurons);
    lemma_sum_grid_is_unique(biases, deltas, corrected.1, other_corrected.1, rows, 1);
    lemma_product_grid_is_unique(
        transposed(corrected.0, neurons),
        errors,
        back.0,
        other_back.0,
        neurons,
        1,
    );
    lemma_image_grid_is_unique(data, derivative, back.1, other_back.1, neurons, 1);
}

impl<
    T: Scalar,
    const ROWS: usize,
    const NEURONS: usize,
    const END_S: usize,
    N: Layer<T, ROWS, END_S>,
> ProcessLayer<T, ROWS, NEURONS, END_S, N> {
    /// Where the arithmetic, the activation function and its derivative have
    /// one value, a training step has one outcome.
    pub proof fn lemma_learns_is_unique(
        &self,
        after: &Self,
        other_after: &Self,
        l_rate: T,
        input: Seq<T>,
        target: Seq<T>,
        function: spec_fn(T, T) -> bool,
        derivative: spec_fn(T, T) -> bool,
    )
        requires
            arithmetic_is_deterministic::<T>(),
            is_single_valued(function),
            is_single_valued(derivative),
            self.learns(after, l_rate, input, target, function, derivative),
            self.learns(other_after, l_rate, input, target, function, derivative),
        ensures
            *after == *other_after,
    {
        let (fed, out, back) = choose|fed: Self, out: Seq<T>, back: (Seq<Seq<T>>, Seq<Seq<T>>)|
            self.learns_by(after, l_rate, input, target, function, derivative, &fed, out, back);
        let (other_fed, other_out, other_back) = choose|
            fed: Self,
            out: Seq<T>,
            back: (Seq<Seq<T>>, Seq<Seq<T>>),
        |
            self.learns_by(
                other_after,
                l_rate,
                input,
                target,
                function,
                derivative,
                &fed,
                out,
                back,
            );
        self.lemma_forwards_is_unique(
            &fed,
            out,
            &other_fed,
            other_out,
            as_column(input),
            function,
        );
        fed.lemma_propagates_is_unique(
            after,
            back,
            other_after,
            other_back,
            l_rate,
            out,
            target,
            derivative,
        );
    }

    /// Where the arithmetic, the activation function and its derivative have
    /// one value, training on the first `n` examples has one outcome.
    pub proof fn lemma_learns_examples_is_unique(
        &self,
        after: &Self,
        other_after: &Self,
        l_rate: T,
        inputs: Seq<Seq<T>>,
        targets: Seq<Seq<T>>,
        n: nat,
        function: spec_fn(T, T) -> bool,
        derivative: spec_fn(T, T) -> bool,
    )
        requires
            arithmetic_is_deterministic::<T>(),
            is_single_valued(function),
            is_single_valued(derivative),
            self.learns_examples(after, l_rate, inputs, targets, n, function, derivative),
            self.learns_examples(other_after, l_rate, inputs, targets, n, function, derivative),
        ensures
            *after == *other_after,
        decreases n,
    {
        if n > 0 {
            let input = inputs[n - 1];
            let target = targets[n - 1];
            let before = (n - 1) as nat;
            let mid = choose|mid: Self|
                #![trigger mid.learns(after, l_rate, input, target, function, derivative)]
                self.learns_examples(&mid, l_rate, inputs, targets, before, function, derivative)
                    && mid.learns(after, l_rate, input, target, function, derivative);
            let other_mid = choose|mid: Self|
                #![trigger mid.learns(other_after, l_rate, input, target, function, derivative)]
                self.learns_examples(&mid, l_rate, inputs, targets, before, function, derivative)
                    && mid.learns(other_after, l_rate, input, target, function, derivative);
            self.lemma_learns_examples_is_unique(
                &mid,
                &other_mid,
                l_rate,
                inputs,
                targets,
                before,
                function,
                derivative,
            );
            mid.lemma_learns_is_unique(
                after,
                other_after,
                l_rate,
                input,
                target,
                function,
                derivative,
            );
        }
    }

    /// Training is deterministic: where the arithmetic, the activation
    /// function and its derivative have one value, training for `epochs`
    /// epochs has one outcome.
    pub proof fn lemma_learns_epochs_is_unique(
        &self,
        after: &Self,
        other_after: &Self,
        l_rate: T,
        inputs: Seq<Seq<T>>,
        targets: Seq<Seq<T>>,
        epochs: nat,
        function: spec_fn(T, T) -> bool,
        derivative: spec_fn(T, T) -> bool,
    )
        requires
            arithmetic_is_deterministic::<T>(),
            is_single_valued(function),
            is_single_valued(derivative),
            self.learns_epochs(after, l_rate, inputs, targets, epochs, function, derivative),
            self.learns_epochs(other_after, l_rate, inputs, targets, epochs, function, derivative),
        ensures
            *after == *other_after,
        decreases epochs,
    {
        if epochs > 0 {
            let all = inputs.len();
            let before = (epochs - 1) as nat;
            let mid = choose|mid: Self|
                #![trigger
                    mid.learns_examples(after, l_rate, inputs, targets, all, function, derivative)
                ]
                self.learns_epochs(&mid, l_rate, inputs, targets, before, function, derivative)
                    && mid.learns_examples(
                    after,
                    l_rate,
                    inputs,
                    targets,
                    all,
                    function,
                    derivative,
                );
            let other_mid = choose|mid: Self|
                #![trigger
                    mid.learns_examples(
                        other_after,
                        l_rate,
                        inputs,
                        targets,
                        all,
                        function,
                        derivative,
                    )
                ]
                self.learns_epochs(&mid, l_rate, inputs, targets, before, function, derivative)
                    && mid.learns_examples(
                    other_after,
                    l_rate,
                    inputs,
                    targets,
                    all,
                    function,
                    derivative,
                );
            self.lemma_learns_epochs_is_unique(
                &mid,
                &other_mid,
                l_rate,
                inputs,
                targets,
                before,
                function,
                derivative,
            );
            mid.lemma_learns_examples_is_unique(
                after,
                other_after,
                l_rate,
                inputs,
                targets,
                all,
                function,
                derivative,
            );
        }
    }
}

} // verus!
