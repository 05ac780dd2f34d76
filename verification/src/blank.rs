//! Networks of zero weights.
//!
//! A stage whose weights and biases are zero computes the activation function
//! at zero, whatever it is fed, as long as zero times the input adds nothing
//! to zero. A whole network of such stages therefore puts out the value of
//! the activation function at zero at every output.

use crate::grid::column;
use crate::grid::is_dot;
use crate::grid::is_grid;
use crate::grid::is_zero_grid;
use crate::matrix::lemma_view_is_grid;
use crate::network::is_activation;
use crate::network::is_activation_by;
use crate::network::Layer;
use crate::network::ProcessLayer;
use crate::scalar::is_product;
use crate::scalar::is_sum;
use crate::scalar::is_value_at_zero;
use crate::scalar::is_zero;
use crate::scalar::Scalar;
use vstd::prelude::*;

verus! {

/// Adding zero times `x` to zero gives zero. This is what lets a stage of zero
/// weights ignore the input `x`.
pub open spec fn is_quiet<T: Scalar>(x: T) -> bool {
    forall|z: T, p: T, acc: T, r: T|
        #![trigger is_product(z, x, p), is_sum(acc, p, r)]
        is_zero(z) && is_product(z, x, p) && is_zero(acc) && is_sum(acc, p, r) ==> is_zero(r)
}

/// A sum of two zeros is zero.
pub open spec fn zero_plus_zero_is_zero<T: Scalar>() -> bool {
    forall|a: T, b: T, r: T|
        #![trigger is_sum(a, b, r)]
        is_zero(a) && is_zero(b) && is_sum(a, b, r) ==> is_zero(r)
}

/// The dot product of a row of zeros with a column of quiet entries is zero.
pub proof fn lemma_dot_of_zero_row<T: Scalar>(row: Seq<T>, col: Seq<T>, n: nat, acc: T)
    requires
        n <= row.len(),
        n <= col.len(),
        forall|k: int| 0 <= k < n ==> is_zero(#[trigger] row[k]),
        forall|k: int| 0 <= k < n ==> is_quiet(#[trigger] col[k]),
        is_dot(row, col, n, acc),
    ensures
        is_zero(acc),
    decreases n,
{
    if n > 0 {
        let (prev, term) = choose|prev: T, term: T|
            #![trigger is_sum(prev, term, acc)]
            is_dot(row, col, (n - 1) as nat, prev) && is_product(row[n - 1], col[n - 1], term)
                && is_sum(prev, term, acc);
        lemma_dot_of_zero_row(row, col, (n - 1) as nat, prev);
        assert(is_zero(row[n - 1]));
        assert(is_quiet(col[n - 1]));
    }
}

/// A stage whose weights and biases are all zero puts out values of the
/// activation function at zero, whatever quiet column it is fed.
pub proof fn lemma_blank_activation<T: Scalar>(
    weights: Seq<Seq<T>>,
    biases: Seq<Seq<T>>,
    feed: Seq<Seq<T>>,
    function: spec_fn(T, T) -> bool,
    out: Seq<Seq<T>>,
    rows: nat,
    neurons: nat,
)
    requires
        is_grid(weights, rows, neurons),
        is_grid(biases, rows, 1),
        is_grid(feed, neurons, 1),
        is_grid(out, rows, 1),
        is_zero_grid(weights),
        is_zero_grid(biases),
        is_activation(weights, biases, feed, function, out),
        zero_plus_zero_is_zero::<T>(),
        forall|i: int| 0 <= i < neurons ==> is_quiet(#[trigger] feed[i][0]),
    ensures
        forall|i: int| 0 <= i < rows ==> is_value_at_zero(function, #[trigger] out[i][0]),
{
    let (weighted, shifted) = choose|weighted: Seq<Seq<T>>, shifted: Seq<Seq<T>>|
        is_activation_by(weights, biases, feed, function, weighted, shifted, out);
    assert forall|i: int| 0 <= i < rows implies is_value_at_zero(
        function,
        #[trigger] out[i][0],
    ) by {
        let col = column(feed, 0);
        assert(is_dot(weights[i], col, feed.len(), weighted[i][0]));
        assert forall|k: int| 0 <= k < neurons implies is_zero(#[trigger] weights[i][k]) by {
        }
        assert forall|k: int| 0 <= k < neurons implies is_quiet(#[trigger] col[k]) by {
            assert(col[k] == feed[k][0]);
        }
        lemma_dot_of_zero_row(weights[i], col, neurons, weighted[i][0]);
        assert(is_zero(biases[i][0]));
        assert(is_sum(weighted[i][0], biases[i][0], shifted[i][0]));
        assert(is_zero(shifted[i][0]));
        assert(function(shifted[i][0], out[i][0]));
    }
}

impl<
    T: Scalar,
    const ROWS: usize,
    const NEURONS: usize,
    const END_S: usize,
    N: Layer<T, ROWS, END_S>,
> ProcessLayer<T, ROWS, NEURONS, END_S, N> {
    /// A network whose weights and biases are all zero puts out nothing but
    /// values of the activation function at zero, whatever quiet inputs it
    /// is given: if a forward pass on the column `feed` gives `out`, every
    /// entry of `out` is such a value.
    ///
    /// An input is quiet if adding zero times it to zero gives zero. Where
    /// the network has more than one processing stage, the same is asked of
    /// the values of the activation function at zero, since they are the
    /// inputs of the stages further on.
    pub proof fn lemma_blank_puts_out_values_at_zero(
        &self,
        after: &Self,
        feed: Seq<Seq<T>>,
        function: spec_fn(T, T) -> bool,
        out: Seq<T>,
    )
        requires
            self.is_blank(),
            is_grid(feed, NEURONS as nat, 1),
            out.len() == END_S,
            self.forwards(after, feed, function, out),
            zero_plus_zero_is_zero::<T>(),
            self.widths().len() > 2 ==> forall|y: T| #[trigger]
                is_value_at_zero(function, y) ==> is_quiet(y),
            forall|i: int| 0 <= i < NEURONS ==> is_quiet(#[trigger] feed[i][0]),
        ensures
            forall|i: int| 0 <= i < END_S ==> is_value_at_zero(function, #[trigger] out[i]),
    {
        let mid = choose|mid: Seq<Seq<T>>| self.forwards_by(after, feed, function, mid, out);
        self.next.lemma_widths();
        lemma_view_is_grid(self.weights);
        lemma_view_is_grid(self.biases);
        lemma_blank_activation(
            self.weights@,
            self.biases@,
            feed,
            function,
            mid,
            ROWS as nat,
            NEURONS as nat,
        );
        self.next.lemma_blank_passes_on(&after.next, mid, function, out);
    }
}

} // verus!
