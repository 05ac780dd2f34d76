//! Layers, and the chains they form.
//!
//! A network is a chain of processing stages that ends in an [`EndLayer`].
//! Each stage owns the next one, and the widths of neighbours are tied together
//! by their types: a stage with `ROWS` outputs only accepts a next stage with
//! `ROWS` inputs, so a chain whose widths do not match cannot be written down.
//!
//! A forward pass hands a column of numbers from stage to stage. A backward
//! pass walks the same chain from the end to the front: every stage corrects
//! its weights and biases by the error that the stage after it hands back,
//! and hands the error on.
//!
//! The contracts are relations between the chain before a pass, the chain
//! after it, and what the pass returns. They are built from the relations
//! between grids in [`crate::grid`].

use crate::activations::Activation;
use crate::blank::is_quiet;
use crate::blank::zero_plus_zero_is_zero;
use crate::determinism::arithmetic_is_deterministic;
use crate::determinism::is_single_valued;
use crate::determinism::lemma_activation_is_unique;
use crate::determinism::lemma_correction_is_unique;
use crate::determinism::lemma_difference_grid_is_unique;
use crate::determinism::lemma_image_grid_is_unique;
use crate::grid::as_column;
use crate::grid::column;
use crate::grid::grid_of;
use crate::grid::is_difference_grid;
use crate::grid::is_grid;
use crate::grid::is_hadamard_grid;
use crate::grid::is_image_grid;
use crate::grid::is_product_grid;
use crate::grid::is_scaled_grid;
use crate::grid::is_sum_grid;
use crate::grid::is_zero_grid;
use crate::grid::transposed;
use crate::matrix::lemma_same_view;
use crate::matrix::lemma_view_is_grid;
use crate::matrix::Matrix;
use crate::scalar::arithmetic_is_total;
use crate::scalar::is_product;
use crate::scalar::is_value_at_zero;
use crate::scalar::Scalar;
use vstd::prelude::*;

verus! {

/// What a stage hands back to the stage before it during a backward pass: the
/// errors of its inputs, and the derivative of the activation at its inputs.
pub struct BackProps<T, const COLS: usize>(pub Matrix<T, COLS, 1>, pub Matrix<T, COLS, 1>);

impl<T, const COLS: usize> View for BackProps<T, COLS> {
    type V = (Seq<Seq<T>>, Seq<Seq<T>>);

    /// The column of errors and the column of gradients.
    open spec fn view(&self) -> (Seq<Seq<T>>, Seq<Seq<T>>) {
        (self.0@, self.1@)
    }
}

/// `out` is a column that a stage with `weights` and `biases` may put out on
/// the column `feed`, by way of the product `weighted` and the sum `shifted`:
///
/// - `weighted` is `weights * feed`;
/// - `shifted` is `weighted + biases`;
/// - `out` is the activation function at the entries of `shifted`.
pub open spec fn is_activation_by<T: Scalar>(
    weights: Seq<Seq<T>>,
    biases: Seq<Seq<T>>,
    feed: Seq<Seq<T>>,
    function: spec_fn(T, T) -> bool,
    weighted: Seq<Seq<T>>,
    shifted: Seq<Seq<T>>,
    out: Seq<Seq<T>>,
) -> bool {
    &&& is_grid(weighted, weights.len(), 1)
    &&& is_grid(shifted, weights.len(), 1)
    &&& is_product_grid(weights, feed, weighted)
    &&& is_sum_grid(weighted, biases, shifted)
    &&& is_image_grid(shifted, function, out)
}

/// `out` is a column that a stage with `weights` and `biases` may put out on
/// the column `feed`: the activation function, applied entry by entry to
/// `weights * feed + biases`.
pub open spec fn is_activation<T: Scalar>(
    weights: Seq<Seq<T>>,
    biases: Seq<Seq<T>>,
    feed: Seq<Seq<T>>,
    function: spec_fn(T, T) -> bool,
    out: Seq<Seq<T>>,
) -> bool {
    exists|weighted: Seq<Seq<T>>, shifted: Seq<Seq<T>>| #[trigger]
        is_activation_by(weights, biases, feed, function, weighted, shifted, out)
}

/// One stage's share of a backward pass, by way of `products`, `deltas` and
/// `outer`.
///
/// The stage holds `weights`, `biases` and the column `data` that it was last
/// fed; the stage after it hands back `errors` and `gradients`. Then
///
/// - `products` is `gradients` times `errors`, entry by entry;
/// - `deltas` is `products` times `l_rate`;
/// - `outer` is `deltas * transpose(data)`;
/// - the new weights are `weights + outer`;
/// - the new biases are `biases + deltas`;
/// - the errors handed back are `transpose(new weights) * errors`, so they
///   go through the weights as corrected, not as they were during the forward
///   pass;
/// - the gradients handed back are the derivative at the entries of `data`.
pub open spec fn is_correction_by<T: Scalar>(
    weights: Seq<Seq<T>>,
    biases: Seq<Seq<T>>,
    data: Seq<Seq<T>>,
    errors: Seq<Seq<T>>,
    gradients: Seq<Seq<T>>,
    l_rate: T,
    derivative: spec_fn(T, T) -> bool,
    products: Seq<Seq<T>>,
    deltas: Seq<Seq<T>>,
    outer: Seq<Seq<T>>,
    corrected: (Seq<Seq<T>>, Seq<Seq<T>>),
    back: (Seq<Seq<T>>, Seq<Seq<T>>),
) -> bool {
    &&& is_grid(products, weights.len(), 1)
    &&& is_grid(deltas, weights.len(), 1)
    &&& is_grid(outer, weights.len(), data.len())
    &&& is_hadamard_grid(gradients, errors, products)
    &&& is_scaled_grid(products, l_rate, deltas)
    &&& is_product_grid(deltas, transposed(data, 1), outer)
    &&& is_sum_grid(weights, outer, corrected.0)
    &&& is_sum_grid(biases, deltas, corrected.1)
    &&& is_product_grid(transposed(corrected.0, data.len()), errors, back.0)
    &&& is_image_grid(data, derivative, back.1)
}

/// One stage's share of a backward pass: `corrected` holds the weights and the
/// biases that the stage may have afterwards, `back` the errors and the
/// gradients that it may hand back. [`is_correction_by`] says how they come
/// about.
pub open spec fn is_correction<T: Scalar>(
    weights: Seq<Seq<T>>,
    biases: Seq<Seq<T>>,
    data: Seq<Seq<T>>,
    errors: Seq<Seq<T>>,
    gradients: Seq<Seq<T>>,
    l_rate: T,
    derivative: spec_fn(T, T) -> bool,
    corrected: (Seq<Seq<T>>, Seq<Seq<T>>),
    back: (Seq<Seq<T>>, Seq<Seq<T>>),
) -> bool {
    exists|products: Seq<Seq<T>>, deltas: Seq<Seq<T>>, outer: Seq<Seq<T>>| #[trigger]
        is_correction_by(
            weights,
            biases,
            data,
            errors,
            gradients,
            l_rate,
            derivative,
            products,
            deltas,
            outer,
            corrected,
            back,
        )
}

/// A stage of a network with `NEURONS` inputs, in a chain that ends in
/// `END_S` outputs.
pub trait Layer<T: Scalar, const NEURONS: usize, const END_S: usize>: Sized {
    /// The weights and the biases of every processing stage from this one to
    /// the end of the chain.
    spec fn parameters(&self) -> Seq<(Seq<Seq<T>>, Seq<Seq<T>>)>;

    /// The number of inputs of every stage from this one to the end of the
    /// chain. The end of the chain counts as a stage: its inputs are the
    /// outputs of the network.
    spec fn widths(&self) -> Seq<nat>;

    /// Every weight and every bias from this stage to the end of the chain is
    /// zero.
    spec fn is_blank(&self) -> bool;

    /// A forward pass on the column `feed` may take the chain from `self` to
    /// `after` and give the outputs `out`.
    spec fn forwards(
        &self,
        after: &Self,
        feed: Seq<Seq<T>>,
        function: spec_fn(T, T) -> bool,
        out: Seq<T>,
    ) -> bool;

    /// A backward pass from the outputs `outputs` toward `targets` may take
    /// the chain from `self` to `after` and hand back `back`.
    spec fn propagates(
        &self,
        after: &Self,
        l_rate: T,
        outputs: Seq<T>,
        targets: Seq<T>,
        derivative: spec_fn(T, T) -> bool,
        back: (Seq<Seq<T>>, Seq<Seq<T>>),
    ) -> bool;

    /// The widths of a chain begin with the number of its inputs and end with
    /// the number of its outputs.
    proof fn lemma_widths(&self)
        ensures
            self.widths().len() > 0,
            self.widths().first() == NEURONS,
            self.widths().last() == END_S,
    ;

    /// A chain of zero weights and biases that is fed values of the activation
    /// function at zero puts out values of the activation function at zero.
    proof fn lemma_blank_passes_on(
        &self,
        after: &Self,
        feed: Seq<Seq<T>>,
        function: spec_fn(T, T) -> bool,
        out: Seq<T>,
    )
        requires
            self.is_blank(),
            is_grid(feed, NEURONS as nat, 1),
            out.len() == END_S,
            self.forwards(after, feed, function, out),
            zero_plus_zero_is_zero::<T>(),
            self.widths().len() > 1 ==> forall|y: T| #[trigger]
                is_value_at_zero(function, y) ==> is_quiet(y),
            forall|i: int| 0 <= i < NEURONS ==> is_value_at_zero(function, #[trigger] feed[i][0]),
        ensures
            forall|i: int| 0 <= i < END_S ==> is_value_at_zero(function, #[trigger] out[i]),
    ;

    /// Where the arithmetic and the activation function have one value, a
    /// forward pass has one outcome.
    proof fn lemma_forwards_is_unique(
        &self,
        after: &Self,
        out: Seq<T>,
        other_after: &Self,
        other_out: Seq<T>,
        feed: Seq<Seq<T>>,
        function: spec_fn(T, T) -> bool,
    )
        requires
            arithmetic_is_deterministic::<T>(),
            is_single_valued(function),
            out.len() == END_S,
            other_out.len() == END_S,
            self.forwards(after, feed, function, out),
            self.forwards(other_after, feed, function, other_out),
        ensures
            out == other_out,
            *after == *other_after,
    ;

    /// Where the arithmetic and the derivative have one value, a backward pass
    /// has one outcome.
    proof fn lemma_propagates_is_unique(
        &self,
        after: &Self,
        back: (Seq<Seq<T>>, Seq<Seq<T>>),
        other_after: &Self,
        other_back: (Seq<Seq<T>>, Seq<Seq<T>>),
        l_rate: T,
        outputs: Seq<T>,
        targets: Seq<T>,
        derivative: spec_fn(T, T) -> bool,
    )
        requires
            arithmetic_is_deterministic::<T>(),
            is_single_valued(derivative),
            is_grid(back.0, NEURONS as nat, 1),
            is_grid(back.1, NEURONS as nat, 1),
            is_grid(other_back.0, NEURONS as nat, 1),
            is_grid(other_back.1, NEURONS as nat, 1),
            self.propagates(after, l_rate, outputs, targets, derivative, back),
            self.propagates(other_after, l_rate, outputs, targets, derivative, other_back),
        ensures
            back == other_back,
            *after == *other_after,
    ;

    /// Feeds the column `feed` through this stage and the stages after it, and
    /// returns the outputs of the chain. Weights and biases stay as they are.
    fn feed_forward<F: Fn(T) -> T, D: Fn(T) -> T>(
        &mut self,
        feed: Matrix<T, NEURONS, 1>,
        act: &Activation<F, D>,
    ) -> (out: [T; END_S])
        requires
            arithmetic_is_total::<T>(),
            act.function_is_total::<T>(),
        ensures
            old(self).forwards(final(self), feed@, act.response(), out@),
            final(self).parameters() == old(self).parameters(),
    ;

    /// Corrects the stages from the end of the chain back to this one, by the
    /// difference between `targets` and the `outputs` of the forward pass
    /// before, and returns what the stage before this one needs for its own
    /// correction.
    fn back_propagate<F: Fn(T) -> T, D: Fn(T) -> T>(
        &mut self,
        l_rate: T,
        outputs: [T; END_S],
        targets: [T; END_S],
        act: &Activation<F, D>,
    ) -> (back: BackProps<T, NEURONS>)
        requires
            arithmetic_is_total::<T>(),
            act.derivative_is_total::<T>(),
        ensures
            old(self).propagates(final(self), l_rate, outputs@, targets@, act.slope(), back@),
    ;
}

/// The end of a chain. It has `END_S` inputs, which are the outputs of the
/// network, and nothing to learn.
#[derive(Debug)]
pub struct EndLayer<const END_S: usize>();

impl<T: Scalar, const END_S: usize> Layer<T, END_S, END_S> for EndLayer<END_S> {
    open spec fn parameters(&self) -> Seq<(Seq<Seq<T>>, Seq<Seq<T>>)> {
        Seq::empty()
    }

    open spec fn widths(&self) -> Seq<nat> {
        seq![END_S as nat]
    }

    open spec fn is_blank(&self) -> bool {
        true
    }

    /// The outputs are the entries of the column that was fed in.
    open spec fn forwards(
        &self,
        after: &Self,
        feed: Seq<Seq<T>>,
        function: spec_fn(T, T) -> bool,
        out: Seq<T>,
    ) -> bool {
        out == column(feed, 0)
    }

    /// The errors are the differences `targets - outputs`; the gradients are
    /// the derivative at the outputs.
    open spec fn propagates(
        &self,
        after: &Self,
        l_rate: T,
        outputs: Seq<T>,
        targets: Seq<T>,
        derivative: spec_fn(T, T) -> bool,
        back: (Seq<Seq<T>>, Seq<Seq<T>>),
    ) -> bool {
        &&& is_difference_grid(as_column(targets), as_column(outputs), back.0)
        &&& is_image_grid(as_column(outputs), derivative, back.1)
    }

    proof fn lemma_widths(&self) {
    }

    proof fn lemma_blank_passes_on(
        &self,
        after: &Self,
        feed: Seq<Seq<T>>,
        function: spec_fn(T, T) -> bool,
        out: Seq<T>,
    ) {
        assert forall|i: int| 0 <= i < END_S implies is_value_at_zero(
            function,
            #[trigger] out[i],
        ) by {
            assert(out[i] == feed[i][0]);
        }
    }

    proof fn lemma_forwards_is_unique(
        &self,
        after: &Self,
        out: Seq<T>,
        other_after: &Self,
        other_out: Seq<T>,
        feed: Seq<Seq<T>>,
        function: spec_fn(T, T) -> bool,
    ) {
    }

    proof fn lemma_propagates_is_unique(
        &self,
        after: &Self,
        back: (Seq<Seq<T>>, Seq<Seq<T>>),
        other_after: &Self,
        other_back: (Seq<Seq<T>>, Seq<Seq<T>>),
        l_rate: T,
        outputs: Seq<T>,
        targets: Seq<T>,
        derivative: spec_fn(T, T) -> bool,
    ) {
        let aimed = as_column(targets);
        let parsed = as_column(outputs);
        lemma_difference_grid_is_unique(aimed, parsed, back.0, other_back.0, END_S as nat, 1);
        lemma_image_grid_is_unique(parsed, derivative, back.1, other_back.1, END_S as nat, 1);
    }

    fn feed_forward<F: Fn(T) -> T, D: Fn(T) -> T>(
        &mut self,
        feed: Matrix<T, END_S, 1>,
        act: &Activation<F, D>,
    ) -> (out: [T; END_S]) {
        let row = feed.transpose();
        let out = row.data[0];
        assert(out@ == row@[0]);
        assert(transposed(feed@, 1)[0] =~= column(feed@, 0));
        out
    }

    fn back_propagate<F: Fn(T) -> T, D: Fn(T) -> T>(
        &mut self,
        l_rate: T,
        outputs: [T; END_S],
        targets: [T; END_S],
        act: &Activation<F, D>,
    ) -> (back: BackProps<T, END_S>) {
        let parsed = Matrix::from([outputs]).transpose();
        let aimed = Matrix::from([targets]).transpose();
        assert(parsed@ =~~= as_column(outputs@));
        assert(aimed@ =~~= as_column(targets@));
        let errors = aimed.subtract(&parsed);
        let gradients = parsed.map(&act.derivative);
        BackProps(errors, gradients)
    }
}

/// A processing stage with `NEURONS` inputs and `ROWS` outputs, followed by
/// the rest of the chain, which takes `ROWS` inputs and ends in `END_S`
/// outputs.
#[derive(Debug)]
pub struct ProcessLayer<
    T: Scalar,
    const ROWS: usize,
    const NEURONS: usize,
    const END_S: usize,
    N: Layer<T, ROWS, END_S>,
> {
    /// The rest of the chain.
    pub next: N,
    /// Row `i` holds the weights of output `i`, one for each input.
    pub weights: Matrix<T, ROWS, NEURONS>,
    /// Entry `i` is the bias of output `i`.
    pub biases: Matrix<T, ROWS, 1>,
    /// The column that the last forward pass fed in. The backward pass reads
    /// it; before the first forward pass it is zero.
    pub data: Matrix<T, NEURONS, 1>,
}

impl<
    T: Scalar,
    const ROWS: usize,
    const NEURONS: usize,
    const END_S: usize,
    N: Layer<T, ROWS, END_S>,
> ProcessLayer<T, ROWS, NEURONS, END_S, N> {
    /// A forward pass on `feed` that hands the column `mid` to the rest of
    /// the chain: the stage keeps `feed` and changes nothing else of its own,
    /// `mid` is what it puts out, and the rest of the chain takes `mid` to the
    /// outputs `out`.
    pub open spec fn forwards_by(
        &self,
        after: &Self,
        feed: Seq<Seq<T>>,
        function: spec_fn(T, T) -> bool,
        mid: Seq<Seq<T>>,
        out: Seq<T>,
    ) -> bool {
        &&& after.weights == self.weights
        &&& after.biases == self.biases
        &&& after.data@ == feed
        &&& is_grid(mid, ROWS as nat, 1)
        &&& is_activation(self.weights@, self.biases@, feed, function, mid)
        &&& self.next.forwards(&after.next, mid, function, out)
    }

    /// A backward pass in which the rest of the chain hands back `inner`: the
    /// rest of the chain is corrected first, this stage is corrected by
    /// `inner`, and the column it was last fed stays as it is.
    pub open spec fn propagates_by(
        &self,
        after: &Self,
        l_rate: T,
        outputs: Seq<T>,
        targets: Seq<T>,
        derivative: spec_fn(T, T) -> bool,
        inner: (Seq<Seq<T>>, Seq<Seq<T>>),
        back: (Seq<Seq<T>>, Seq<Seq<T>>),
    ) -> bool {
        &&& after.data == self.data
        &&& is_grid(inner.0, ROWS as nat, 1)
        &&& is_grid(inner.1, ROWS as nat, 1)
        &&& self.next.propagates(&after.next, l_rate, outputs, targets, derivative, inner)
        &&& is_correction(
            self.weights@,
            self.biases@,
            self.data@,
            inner.0,
            inner.1,
            l_rate,
            derivative,
            (after.weights@, after.biases@),
            back,
        )
    }

    /// A training step by way of the chain `fed`, the outputs `out` and the
    /// errors and gradients `back`: a forward pass on `input` takes `self` to
    /// `fed` and gives `out`; a backward pass from `out` toward `target`
    /// takes `fed` to `after` and hands back `back`.
    pub open spec fn learns_by(
        &self,
        after: &Self,
        l_rate: T,
        input: Seq<T>,
        target: Seq<T>,
        function: spec_fn(T, T) -> bool,
        derivative: spec_fn(T, T) -> bool,
        fed: &Self,
        out: Seq<T>,
        back: (Seq<Seq<T>>, Seq<Seq<T>>),
    ) -> bool {
        &&& out.len() == END_S
        &&& is_grid(back.0, NEURONS as nat, 1)
        &&& is_grid(back.1, NEURONS as nat, 1)
        &&& self.forwards(fed, as_column(input), function, out)
        &&& fed.propagates(after, l_rate, out, target, derivative, back)
    }

    /// A training step may take the chain from `self` to `after`: a forward
    /// pass on `input`, then a backward pass from its outputs toward `target`.
    pub open spec fn learns(
        &self,
        after: &Self,
        l_rate: T,
        input: Seq<T>,
        target: Seq<T>,
        function: spec_fn(T, T) -> bool,
        derivative: spec_fn(T, T) -> bool,
    ) -> bool {
        exists|fed: Self, out: Seq<T>, back: (Seq<Seq<T>>, Seq<Seq<T>>)| #[trigger]
            self.learns_by(after, l_rate, input, target, function, derivative, &fed, out, back)
    }

    /// Training steps on the first `n` examples, one after the other and in
    /// their order, may take the chain from `self` to `after`.
    pub open spec fn learns_examples(
        &self,
        after: &Self,
        l_rate: T,
        inputs: Seq<Seq<T>>,
        targets: Seq<Seq<T>>,
        n: nat,
        function: spec_fn(T, T) -> bool,
        derivative: spec_fn(T, T) -> bool,
    ) -> bool
        decreases n,
    {
        if n == 0 {
            *after == *self
        } else {
            exists|mid: Self|
                #![trigger
                    mid.learns(after, l_rate, inputs[n - 1], targets[n - 1], function, derivative)
                ]
                {
                    &&& self.learns_examples(
                        &mid,
                        l_rate,
                        inputs,
                        targets,
                        (n - 1) as nat,
                        function,
                        derivative,
                    )
                    &&& mid.learns(
                        after,
                        l_rate,
                        inputs[n - 1],
                        targets[n - 1],
                        function,
                        derivative,
                    )
                }
        }
    }

    /// `epochs` passes over all the examples, one after the other, may take
    /// the chain from `self` to `after`.
    pub open spec fn learns_epochs(
        &self,
        after: &Self,
        l_rate: T,
        inputs: Seq<Seq<T>>,
        targets: Seq<Seq<T>>,
        epochs: nat,
        function: spec_fn(T, T) -> bool,
        derivative: spec_fn(T, T) -> bool,
    ) -> bool
        decreases epochs,
    {
        if epochs == 0 {
            *after == *self
        } else {
            exists|mid: Self|
                #![trigger
                    mid.learns_examples(
                        after,
                        l_rate,
                        inputs,
                        targets,
                        inputs.len(),
                        function,
                        derivative,
                    )
                ]
                {
                    &&& self.learns_epochs(
                        &mid,
                        l_rate,
                        inputs,
                        targets,
                        (epochs - 1) as nat,
                        function,
                        derivative,
                    )
                    &&& mid.learns_examples(
                        after,
                        l_rate,
                        inputs,
                        targets,
                        inputs.len(),
                        function,
                        derivative,
                    )
                }
        }
    }

    /// Neighbouring stages agree on their width: the weights and the biases of
    /// a stage have one row for each input of the stage after it, and the
    /// weights have one column for each input of the stage itself.
    pub proof fn lemma_widths_match(&self)
        ensures
            self.widths().len() >= 2,
            is_grid(self.weights@, self.widths()[1], self.widths()[0]),
            is_grid(self.biases@, self.widths()[1], 1),
            is_grid(self.data@, self.widths()[0], 1),
    {
        self.next.lemma_widths();
    }

    /// A stage in front of `next`, with all its weights and biases zero.
    pub fn new(next: N) -> (layer: ProcessLayer<T, ROWS, NEURONS, END_S, N>)
        ensures
            layer.next == next,
            is_zero_grid(layer.weights@),
            is_zero_grid(layer.biases@),
            is_zero_grid(layer.data@),
            next.is_blank() ==> layer.is_blank(),
    {
        ProcessLayer {
            next,
            weights: Matrix::zeros(),
            biases: Matrix::zeros(),
            data: Matrix::zeros(),
        }
    }

    /// A stage in front of `next`, with the given weights and biases: row `i`
    /// of `weights` and entry `i` of `biases` belong to output `i`.
    pub fn new_with(next: N, weights: [[T; NEURONS]; ROWS], biases: [T; ROWS]) -> (layer:
        ProcessLayer<T, ROWS, NEURONS, END_S, N>)
        ensures
            layer.next == next,
            layer.weights@ == grid_of(weights),
            layer.biases@ == as_column(biases@),
            is_zero_grid(layer.data@),
    {
        let column = Matrix::from([biases]).transpose();
        assert(column@ =~~= as_column(biases@));
        ProcessLayer { next, weights: Matrix::from(weights), biases: column, data: Matrix::zeros() }
    }

    /// The outputs of the network on the inputs `data`. Weights and biases
    /// stay as they are; every stage keeps the column it was fed.
    pub fn predict<F: Fn(T) -> T, D: Fn(T) -> T>(
        &mut self,
        data: [T; NEURONS],
        act: &Activation<F, D>,
    ) -> (out: [T; END_S])
        requires
            arithmetic_is_total::<T>(),
            act.function_is_total::<T>(),
        ensures
            old(self).forwards(final(self), as_column(data@), act.response(), out@),
            final(self).parameters() == old(self).parameters(),
    {
        let feed = Matrix::from([data]).transpose();
        assert(feed@ =~~= as_column(data@));
        self.feed_forward(feed, act)
    }

    /// Trains the network: `epochs` times over, it takes the examples in their
    /// order and, for each, makes a forward pass on the inputs and a backward
    /// pass toward the targets. Example `i` is `inputs[i]` with `targets[i]`.
    ///
    /// Without epochs, or without examples, the network stays as it is.
    pub fn train<const DATA_S: usize, F: Fn(T) -> T, D: Fn(T) -> T>(
        &mut self,
        l_rate: T,
        inputs: [[T; NEURONS]; DATA_S],
        targets: [[T; END_S]; DATA_S],
        epochs: usize,
        act: &Activation<F, D>,
    )
        requires
            arithmetic_is_total::<T>(),
            act.function_is_total::<T>(),
            act.derivative_is_total::<T>(),
        ensures
            old(self).learns_epochs(
                final(self),
                l_rate,
                grid_of(inputs),
                grid_of(targets),
                epochs as nat,
                act.response(),
                act.slope(),
            ),
            epochs == 0 || DATA_S == 0 ==> *final(self) == *old(self),
    {
        let mut epoch: usize = 0;
        while epoch < epochs
            invariant
                arithmetic_is_total::<T>(),
                act.function_is_total::<T>(),
                act.derivative_is_total::<T>(),
                epoch <= epochs,
                old(self).learns_epochs(
                    &*self,
                    l_rate,
                    grid_of(inputs),
                    grid_of(targets),
                    epoch as nat,
                    act.response(),
                    act.slope(),
                ),
                epoch == 0 || DATA_S == 0 ==> *self == *old(self),
            decreases epochs - epoch,
        {
            let ghost opening = *self;
            let mut i: usize = 0;
            while i < DATA_S
                invariant
                    arithmetic_is_total::<T>(),
                    act.function_is_total::<T>(),
                    act.derivative_is_total::<T>(),
                    i <= DATA_S,
                    opening.learns_examples(
                        &*self,
                        l_rate,
                        grid_of(inputs),
                        grid_of(targets),
                        i as nat,
                        act.response(),
                        act.slope(),
                    ),
                decreases DATA_S - i,
            {
                let ghost before = *self;
                let feed = Matrix::from([inputs[i]]).transpose();
                assert(feed@ =~~= as_column(inputs[i as int]@));
                let outputs = self.feed_forward(feed, act);
                let ghost fed = *self;
                let _back = self.back_propagate(l_rate, outputs, targets[i], act);
                proof {
                    let n = (i + 1) as nat;
                    assert(before.learns_by(
                        &*self,
                        l_rate,
                        grid_of(inputs)[n - 1],
                        grid_of(targets)[n - 1],
                        act.response(),
                        act.slope(),
                        &fed,
                        outputs@,
                        _back@,
                    ));
                    assert(before.learns(
                        &*self,
                        l_rate,
                        grid_of(inputs)[n - 1],
                        grid_of(targets)[n - 1],
                        act.response(),
                        act.slope(),
                    ));
                    assert(opening.learns_examples(
                        &before,
                        l_rate,
                        grid_of(inputs),
                        grid_of(targets),
                        (n - 1) as nat,
                        act.response(),
                        act.slope(),
                    ));
                }
                i = i + 1;
            }
            proof {
                let n = (epoch + 1) as nat;
                assert(old(self).learns_epochs(
                    &opening,
                    l_rate,
                    grid_of(inputs),
                    grid_of(targets),
                    (n - 1) as nat,
                    act.response(),
                    act.slope(),
                ));
                assert(grid_of(inputs).len() == DATA_S);
            }
            epoch = epoch + 1;
        }
    }

    /// This stage's own share of a forward pass: it keeps `feed` for the
    /// backward pass, and returns the column for the next stage.
    fn calc_feed_forward<F: Fn(T) -> T, D: Fn(T) -> T>(
        &mut self,
        feed: Matrix<T, NEURONS, 1>,
        act: &Activation<F, D>,
    ) -> (out: Matrix<T, ROWS, 1>)
        requires
            arithmetic_is_total::<T>(),
            act.function_is_total::<T>(),
        ensures
            final(self).next == old(self).next,
            final(self).weights == old(self).weights,
            final(self).biases == old(self).biases,
            final(self).data == feed,
            is_activation(old(self).weights@, old(self).biases@, feed@, act.response(), out@),
    {
        self.data = feed;
        let weighted = self.weights.multiply(&self.data);
        let shifted = weighted.add(&self.biases);
        let out = shifted.map(&act.function);
        assert(is_activation_by(
            self.weights@,
            self.biases@,
            feed@,
            act.response(),
            weighted@,
            shifted@,
            out@,
        ));
        out
    }

    /// This stage's own share of a backward pass: it corrects its weights and
    /// biases by what the next stage handed back, and returns what the stage
    /// before it needs.
    fn calc_back_propagate<F: Fn(T) -> T, D: Fn(T) -> T>(
        &mut self,
        back_props: BackProps<T, ROWS>,
        l_rate: T,
        act: &Activation<F, D>,
    ) -> (back: BackProps<T, NEURONS>)
        requires
            arithmetic_is_total::<T>(),
            act.derivative_is_total::<T>(),
        ensures
            final(self).next == old(self).next,
            final(self).data == old(self).data,
            is_correction(
                old(self).weights@,
                old(self).biases@,
                old(self).data@,
                back_props@.0,
                back_props@.1,
                l_rate,
                act.slope(),
                (final(self).weights@, final(self).biases@),
                back@,
            ),
    {
        let BackProps(errors, gradients) = back_props;
        let products = gradients.dot_multiply(&errors);
        let scale = |x: T| -> (y: T)
            ensures
                is_product(x, l_rate, y)
            { x * l_rate };
        let deltas = products.map(&scale);
        let outer = deltas.multiply(&self.data.transpose());
        self.weights = self.weights.add(&outer);
        self.biases = self.biases.add(&deltas);
        let errors = self.weights.transpose().multiply(&errors);
        let gradients = self.data.map(&act.derivative);
        let back = BackProps(errors, gradients);
        assert(is_scaled_grid(products@, l_rate, deltas@));
        assert(is_correction_by(
            old(self).weights@,
            old(self).biases@,
            self.data@,
            back_props@.0,
            back_props@.1,
            l_rate,
            act.slope(),
            products@,
            deltas@,
            outer@,
            (self.weights@, self.biases@),
            back@,
        ));
        back
    }
}

impl<
    T: Scalar,
    const ROWS: usize,
    const NEURONS: usize,
    const END_S: usize,
    N: Layer<T, ROWS, END_S>,
> Layer<T, NEURONS, END_S> for ProcessLayer<T, ROWS, NEURONS, END_S, N> {
    open spec fn parameters(&self) -> Seq<(Seq<Seq<T>>, Seq<Seq<T>>)> {
        seq![(self.weights@, self.biases@)] + self.next.parameters()
    }

    open spec fn widths(&self) -> Seq<nat> {
        seq![NEURONS as nat] + self.next.widths()
    }

    open spec fn is_blank(&self) -> bool {
        &&& is_zero_grid(self.weights@)
        &&& is_zero_grid(self.biases@)
        &&& self.next.is_blank()
    }

    /// The stage hands some column on to the rest of the chain, as
    /// [`ProcessLayer::forwards_by`] says.
    open spec fn forwards(
        &self,
        after: &Self,
        feed: Seq<Seq<T>>,
        function: spec_fn(T, T) -> bool,
        out: Seq<T>,
    ) -> bool {
        exists|mid: Seq<Seq<T>>| #[trigger] self.forwards_by(after, feed, function, mid, out)
    }

    /// The rest of the chain hands something back to the stage, as
    /// [`ProcessLayer::propagates_by`] says.
    open spec fn propagates(
        &self,
        after: &Self,
        l_rate: T,
        outputs: Seq<T>,
        targets: Seq<T>,
        derivative: spec_fn(T, T) -> bool,
        back: (Seq<Seq<T>>, Seq<Seq<T>>),
    ) -> bool {
        exists|inner: (Seq<Seq<T>>, Seq<Seq<T>>)| #[trigger]
            self.propagates_by(after, l_rate, outputs, targets, derivative, inner, back)
    }

    proof fn lemma_widths(&self) {
        self.next.lemma_widths();
    }

    proof fn lemma_blank_passes_on(
        &self,
        after: &Self,
        feed: Seq<Seq<T>>,
        function: spec_fn(T, T) -> bool,
        out: Seq<T>,
    ) {
        self.next.lemma_widths();
        assert forall|i: int| 0 <= i < NEURONS implies is_quiet(#[trigger] feed[i][0]) by {
            assert(is_value_at_zero(function, feed[i][0]));
        }
        self.lemma_blank_puts_out_values_at_zero(after, feed, function, out);
    }

    proof fn lemma_forwards_is_unique(
        &self,
        after: &Self,
        out: Seq<T>,
        other_after: &Self,
        other_out: Seq<T>,
        feed: Seq<Seq<T>>,
        function: spec_fn(T, T) -> bool,
    ) {
        let mid = choose|mid: Seq<Seq<T>>| self.forwards_by(after, feed, function, mid, out);
        let other_mid = choose|mid: Seq<Seq<T>>|
            self.forwards_by(other_after, feed, function, mid, other_out);
        lemma_activation_is_unique(
            self.weights@,
            self.biases@,
            feed,
            function,
            mid,
            other_mid,
            ROWS as nat,
        );
        self.next.lemma_forwards_is_unique(
            &after.next,
            out,
            &other_after.next,
            other_out,
            mid,
            function,
        );
        lemma_same_view(after.data, other_after.data);
    }

    proof fn lemma_propagates_is_unique(
        &self,
        after: &Self,
        back: (Seq<Seq<T>>, Seq<Seq<T>>),
        other_after: &Self,
        other_back: (Seq<Seq<T>>, Seq<Seq<T>>),
        l_rate: T,
        outputs: Seq<T>,
        targets: Seq<T>,
        derivative: spec_fn(T, T) -> bool,
    ) {
        let inner = choose|inner: (Seq<Seq<T>>, Seq<Seq<T>>)|
            self.propagates_by(after, l_rate, outputs, targets, derivative, inner, back);
        let other_inner = choose|inner: (Seq<Seq<T>>, Seq<Seq<T>>)|
            self.propagates_by(
                other_after,
                l_rate,
                outputs,
                targets,
                derivative,
                inner,
                other_back,
            );
        self.next.lemma_propagates_is_unique(
            &after.next,
            inner,
            &other_after.next,
            other_inner,
            l_rate,
            outputs,
            targets,
            derivative,
        );
        lemma_view_is_grid(self.weights);
        lemma_view_is_grid(self.data);
        lemma_view_is_grid(after.weights);
        lemma_view_is_grid(after.biases);
        lemma_view_is_grid(other_after.weights);
        lemma_view_is_grid(other_after.biases);
        lemma_correction_is_unique(
            self.weights@,
            self.biases@,
            self.data@,
            inner.0,
            inner.1,
            l_rate,
            derivative,
            (after.weights@, after.biases@),
            back,
            (other_after.weights@, other_after.biases@),
            other_back,
            ROWS as nat,
            NEURONS as nat,
        );
        lemma_same_view(after.weights, other_after.weights);
        lemma_same_view(after.biases, other_after.biases);
    }

    fn feed_forward<F: Fn(T) -> T, D: Fn(T) -> T>(
        &mut self,
        feed: Matrix<T, NEURONS, 1>,
        act: &Activation<F, D>,
    ) -> (out: [T; END_S]) {
        let result = self.calc_feed_forward(feed, act);
        let out = self.next.feed_forward(result, act);
        proof {
            lemma_view_is_grid(result);
            assert(old(self).forwards_by(&*self, feed@, act.response(), result@, out@));
        }
        out
    }

    fn back_propagate<F: Fn(T) -> T, D: Fn(T) -> T>(
        &mut self,
        l_rate: T,
        outputs: [T; END_S],
        targets: [T; END_S],
        act: &Activation<F, D>,
    ) -> (back: BackProps<T, NEURONS>) {
        let back_props = self.next.back_propagate(l_rate, outputs, targets, act);
        let ghost inner = back_props@;
        let back = self.calc_back_propagate(back_props, l_rate, act);
        proof {
            assert(old(self).propagates_by(
                &*self,
                l_rate,
                outputs@,
                targets@,
                act.slope(),
                inner,
                back@,
            ));
        }
        back
    }
}

} // verus!
