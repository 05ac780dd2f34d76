use mynn::activations::Activation;
use mynn::matrix::Matrix;
use mynn::network::BackProps;
use mynn::network::EndLayer;
use mynn::network::Layer;
use mynn::network::ProcessLayer;
use std::cell::Cell;

const SEED: u64 = 6_447_991_239_222_745_267;

type Net231 = ProcessLayer<f64, 3, 2, 1, ProcessLayer<f64, 1, 3, 1, EndLayer<1>>>;

fn logistic(x: f64) -> f64 {
    1.0 / (1.0 + libm::pow(core::f64::consts::E, -x))
}

fn logistic_slope(y: f64) -> f64 {
    y * (1.0 - y)
}

fn sigmoid() -> Activation<fn(f64) -> f64, fn(f64) -> f64> {
    Activation { function: logistic, derivative: logistic_slope }
}

fn plain(x: f64) -> f64 {
    x
}

fn one(_y: f64) -> f64 {
    1.0
}

fn double_of(y: f64) -> f64 {
    2.0 * y
}

/// The identity, with the constant derivative 1: every step can be worked out by hand.
fn linear() -> Activation<fn(f64) -> f64, fn(f64) -> f64> {
    Activation { function: plain, derivative: one }
}

#[test]
fn end_layer_hands_its_inputs_out() {
    let mut end = EndLayer::<3>();
    let out = end.feed_forward(Matrix::from([[1.5], [-2.0], [0.25]]), &sigmoid());
    assert_eq!(out, [1.5, -2.0, 0.25]);
}

#[test]
fn end_layer_starts_the_backward_pass() {
    let mut end = EndLayer::<2>();
    let act = Activation { function: plain, derivative: double_of };
    let BackProps(errors, gradients) = end.back_propagate(0.5, [1.0, 4.0], [3.0, 1.0], &act);
    assert_eq!(errors.data, [[2.0], [-3.0]]);
    assert_eq!(gradients.data, [[2.0], [8.0]]);
}

#[test]
fn new_layer_is_all_zero() {
    let net: Net231 = ProcessLayer::new(ProcessLayer::new(EndLayer()));
    assert_eq!(net.weights.data, [[0.0; 2]; 3]);
    assert_eq!(net.biases.data, [[0.0]; 3]);
    assert_eq!(net.data.data, [[0.0]; 2]);
    assert_eq!(net.next.weights.data, [[0.0; 3]; 1]);
    assert_eq!(net.next.biases.data, [[0.0]; 1]);
}

#[test]
fn new_with_keeps_weights_and_stands_biases_in_a_column() {
    let net: ProcessLayer<f64, 2, 3, 2, EndLayer<2>> =
        ProcessLayer::new_with(EndLayer(), [[1.0, 2.0, 3.0], [4.0, 5.0, 6.0]], [7.0, 8.0]);
    assert_eq!(net.weights.data, [[1.0, 2.0, 3.0], [4.0, 5.0, 6.0]]);
    assert_eq!(net.biases.data, [[7.0], [8.0]]);
    assert_eq!(net.data.data, [[0.0], [0.0], [0.0]]);
}

#[test]
fn predict_is_weights_times_inputs_plus_biases_through_the_activation() {
    let mut net: ProcessLayer<f64, 1, 2, 1, EndLayer<1>> =
        ProcessLayer::new_with(EndLayer(), [[2.0, 3.0]], [1.0]);
    assert_eq!(net.predict([5.0, 7.0], &linear()), [32.0]);
    let squares = Activation { function: |x: f64| x * x, derivative: one };
    assert_eq!(net.predict([5.0, 7.0], &squares), [1024.0]);
}

#[test]
fn predict_goes_through_every_stage_in_order() {
    let mut net: ProcessLayer<f64, 2, 2, 1, ProcessLayer<f64, 1, 2, 1, EndLayer<1>>> =
        ProcessLayer::new_with(
            ProcessLayer::new_with(EndLayer(), [[10.0, 100.0]], [0.5]),
            [[1.0, 2.0], [3.0, 4.0]],
            [1.0, -1.0],
        );
    let act = Activation { function: |x: f64| x + 1.0, derivative: one };
    // first stage: [1*1 + 2*2 + 1, 3*1 + 4*2 - 1] + 1 = [7, 11]
    // second stage: 10*7 + 100*11 + 0.5 + 1 = 1171.5
    assert_eq!(net.predict([1.0, 2.0], &act), [1171.5]);
    assert_eq!(net.data.data, [[1.0], [2.0]]);
    assert_eq!(net.next.data.data, [[7.0], [11.0]]);
}

#[test]
fn predict_with_the_logistic_function() {
    let mut net: ProcessLayer<f64, 1, 1, 1, EndLayer<1>> =
        ProcessLayer::new_with(EndLayer(), [[2.0]], [-2.0]);
    let out = net.predict([1.0], &sigmoid());
    assert_eq!(out, [0.5]);
    let out = net.predict([3.0], &sigmoid());
    assert!((out[0] - 0.982_013_790_037_908_5).abs() < 1e-12);
}

#[test]
fn predict_leaves_weights_and_biases_alone() {
    let mut net: Net231 = ProcessLayer::new_with(
        ProcessLayer::new_with(EndLayer(), [[0.5, -0.5, 0.25]], [0.125]),
        [[1.0, 2.0], [3.0, 4.0], [5.0, 6.0]],
        [0.1, 0.2, 0.3],
    );
    for input in [[0.0, 0.0], [1.0, -1.0], [3.5, 2.0]] {
        net.predict(input, &sigmoid());
        assert_eq!(net.weights.data, [[1.0, 2.0], [3.0, 4.0], [5.0, 6.0]]);
        assert_eq!(net.biases.data, [[0.1], [0.2], [0.3]]);
        assert_eq!(net.next.weights.data, [[0.5, -0.5, 0.25]]);
        assert_eq!(net.next.biases.data, [[0.125]]);
    }
}

#[test]
fn predict_twice_gives_the_same_outputs() {
    let mut net: Net231 = ProcessLayer::new_with(
        ProcessLayer::new_with(EndLayer(), [[0.5, -0.5, 0.25]], [0.125]),
        [[1.0, 2.0], [3.0, 4.0], [5.0, 6.0]],
        [0.1, 0.2, 0.3],
    );
    let first = net.predict([0.3, 0.7], &sigmoid());
    let second = net.predict([0.3, 0.7], &sigmoid());
    assert_eq!(first, second);
}

#[test]
fn blank_network_puts_out_the_activation_of_zero() {
    let mut net: ProcessLayer<f64, 3, 2, 2, ProcessLayer<f64, 2, 3, 2, EndLayer<2>>> =
        ProcessLayer::new(ProcessLayer::new(EndLayer()));
    for input in [[0.0, 0.0], [1.0, -1.0], [-123.5, 1e300]] {
        assert_eq!(net.predict(input, &sigmoid()), [0.5, 0.5]);
    }
    let shifted = Activation { function: |x: f64| x + 3.0, derivative: one };
    assert_eq!(net.predict([4.0, 5.0], &shifted), [3.0, 3.0]);
}

#[test]
fn blank_network_cannot_ignore_an_infinite_input() {
    let mut net: ProcessLayer<f64, 1, 1, 1, EndLayer<1>> = ProcessLayer::new(EndLayer());
    let out = net.predict([f64::INFINITY], &linear());
    assert!(out[0].is_nan());
}

#[test]
fn back_propagate_corrects_weights_then_hands_the_error_back_through_them() {
    let mut net: ProcessLayer<f64, 1, 2, 1, EndLayer<1>> =
        ProcessLayer::new_with(EndLayer(), [[2.0, 3.0]], [1.0]);
    let act = linear();
    let out = net.feed_forward(Matrix::from([[5.0], [7.0]]), &act);
    assert_eq!(out, [32.0]);
    // error 35 - 32 = 3, gradient 1, delta = 1 * 3 * 2 = 6
    let BackProps(errors, gradients) = net.back_propagate(2.0, out, [35.0], &act);
    assert_eq!(net.weights.data, [[2.0 + 6.0 * 5.0, 3.0 + 6.0 * 7.0]]);
    assert_eq!(net.biases.data, [[7.0]]);
    // the error goes back through the corrected weights
    assert_eq!(errors.data, [[32.0 * 3.0], [45.0 * 3.0]]);
    assert_eq!(gradients.data, [[1.0], [1.0]]);
    assert_eq!(net.data.data, [[5.0], [7.0]]);
}

#[test]
fn back_propagate_scales_by_gradient_error_and_learning_rate() {
    let mut net: ProcessLayer<f64, 2, 1, 2, EndLayer<2>> =
        ProcessLayer::new_with(EndLayer(), [[1.0], [2.0]], [0.0, 0.0]);
    let act = Activation { function: plain, derivative: double_of };
    let out = net.feed_forward(Matrix::from([[3.0]]), &act);
    assert_eq!(out, [3.0, 6.0]);
    // errors [4 - 3, 4 - 6] = [1, -2], gradients [6, 12], deltas [6 * 1, 12 * -2] * 0.5 = [3, -12]
    let BackProps(errors, gradients) = net.back_propagate(0.5, out, [4.0, 4.0], &act);
    assert_eq!(net.weights.data, [[1.0 + 3.0 * 3.0], [2.0 - 12.0 * 3.0]]);
    assert_eq!(net.biases.data, [[3.0], [-12.0]]);
    // transpose([[10], [-34]]) * [1, -2] = 10 + 68
    assert_eq!(errors.data, [[78.0]]);
    assert_eq!(gradients.data, [[6.0]]);
}

#[test]
fn back_propagate_walks_the_chain_from_the_end_to_the_front() {
    let mut net: ProcessLayer<f64, 1, 1, 1, ProcessLayer<f64, 1, 1, 1, EndLayer<1>>> =
        ProcessLayer::new_with(ProcessLayer::new_with(EndLayer(), [[3.0]], [0.0]), [[2.0]], [0.0]);
    let act = linear();
    let out = net.feed_forward(Matrix::from([[1.0]]), &act);
    assert_eq!(out, [6.0]);
    let BackProps(errors, gradients) = net.back_propagate(1.0, out, [10.0], &act);
    // last stage: error 4, delta 4, weight 3 + 4 * 2 = 11, hands back 11 * 4 = 44
    assert_eq!(net.next.weights.data, [[11.0]]);
    assert_eq!(net.next.biases.data, [[4.0]]);
    // first stage: delta 44, weight 2 + 44 * 1 = 46, hands back 46 * 44
    assert_eq!(net.weights.data, [[46.0]]);
    assert_eq!(net.biases.data, [[44.0]]);
    assert_eq!(errors.data, [[2024.0]]);
    assert_eq!(gradients.data, [[1.0]]);
}

#[test]
fn train_for_no_epochs_changes_nothing() {
    let mut net: Net231 = ProcessLayer::new_with(
        ProcessLayer::new_with(EndLayer(), [[0.5, -0.5, 0.25]], [0.125]),
        [[1.0, 2.0], [3.0, 4.0], [5.0, 6.0]],
        [0.1, 0.2, 0.3],
    );
    net.predict([9.0, 8.0], &sigmoid());
    net.train(0.5, [[0.0, 0.0], [0.0, 1.0]], [[0.0], [1.0]], 0, &sigmoid());
    assert_eq!(net.weights.data, [[1.0, 2.0], [3.0, 4.0], [5.0, 6.0]]);
    assert_eq!(net.biases.data, [[0.1], [0.2], [0.3]]);
    assert_eq!(net.data.data, [[9.0], [8.0]]);
    assert_eq!(net.next.weights.data, [[0.5, -0.5, 0.25]]);
    assert_eq!(net.next.biases.data, [[0.125]]);
}

#[test]
fn train_without_examples_changes_nothing() {
    let mut net: ProcessLayer<f64, 1, 2, 1, EndLayer<1>> =
        ProcessLayer::new_with(EndLayer(), [[2.0, 3.0]], [1.0]);
    net.train(0.5, [], [], 1000, &sigmoid());
    assert_eq!(net.weights.data, [[2.0, 3.0]]);
    assert_eq!(net.biases.data, [[1.0]]);
}

#[test]
fn train_once_on_one_example_is_one_forward_and_one_backward_pass() {
    let mut net: ProcessLayer<f64, 1, 2, 1, EndLayer<1>> =
        ProcessLayer::new_with(EndLayer(), [[2.0, 3.0]], [1.0]);
    net.train(2.0, [[5.0, 7.0]], [[35.0]], 1, &linear());
    assert_eq!(net.weights.data, [[32.0, 45.0]]);
    assert_eq!(net.biases.data, [[7.0]]);
    assert_eq!(net.data.data, [[5.0], [7.0]]);
}

#[test]
fn train_takes_the_examples_in_order_epoch_after_epoch() {
    let inputs = [[1.0, 0.0], [0.0, 1.0], [1.0, 1.0]];
    let targets = [[1.0], [2.0], [0.5]];
    let fresh = || -> ProcessLayer<f64, 1, 2, 1, EndLayer<1>> {
        ProcessLayer::new_with(EndLayer(), [[0.5, -0.25]], [0.125])
    };
    let act = Activation { function: plain, derivative: |y: f64| 1.0 + y * 0.5 };

    let mut trained = fresh();
    trained.train(0.125, inputs, targets, 2, &act);

    let mut stepped = fresh();
    for _ in 0..2 {
        for i in 0..3 {
            let out = stepped.feed_forward(Matrix::from([inputs[i]]).transpose(), &act);
            stepped.back_propagate(0.125, out, targets[i], &act);
        }
    }
    assert_eq!(trained.weights.data, stepped.weights.data);
    assert_eq!(trained.biases.data, stepped.biases.data);

    let mut reversed = fresh();
    for _ in 0..2 {
        for i in [2, 1, 0] {
            let out = reversed.feed_forward(Matrix::from([inputs[i]]).transpose(), &act);
            reversed.back_propagate(0.125, out, targets[i], &act);
        }
    }
    assert_ne!(trained.weights.data, reversed.weights.data);
}

#[test]
fn train_moves_the_outputs_toward_the_targets() {
    let mut net: ProcessLayer<f64, 1, 1, 1, EndLayer<1>> = ProcessLayer::new(EndLayer());
    let act = sigmoid();
    let before = (net.predict([1.0], &act)[0] - 0.9).abs();
    net.train(0.5, [[1.0]], [[0.9]], 200, &act);
    let after = (net.predict([1.0], &act)[0] - 0.9).abs();
    assert!(after < before);
    assert!(after < 0.05);
}

/// A network of random weights, drawn uniformly from `[-1, 1)`, and zero biases.
fn random_net() -> Net231 {
    let mut rng = fastrand::Rng::with_seed(SEED);
    let first = Matrix::<f64, 3, 2>::random(|| rng.f64() * 2.0 - 1.0);
    let second = Matrix::<f64, 1, 3>::random(|| rng.f64() * 2.0 - 1.0);
    ProcessLayer::new_with(
        ProcessLayer::new_with(EndLayer(), second.data, [0.0]),
        first.data,
        [0.0, 0.0, 0.0],
    )
}

#[test]
fn train_learns_exclusive_or() {
    let inputs = [[0.0, 0.0], [0.0, 1.0], [1.0, 0.0], [1.0, 1.0]];
    let targets = [[0.0], [1.0], [1.0], [0.0]];
    let act = sigmoid();
    let mut net = random_net();
    net.train(0.5, inputs, targets, 10_000, &act);
    assert!(net.predict([0.0, 0.0], &act)[0] < 0.2);
    assert!(net.predict([0.0, 1.0], &act)[0] > 0.8);
    assert!(net.predict([1.0, 0.0], &act)[0] > 0.8);
    assert!(net.predict([1.0, 1.0], &act)[0] < 0.2);
}

#[test]
fn train_is_deterministic() {
    let inputs = [[0.0, 0.0], [0.0, 1.0], [1.0, 0.0], [1.0, 1.0]];
    let targets = [[0.0], [1.0], [1.0], [0.0]];
    let act = sigmoid();
    let mut first = random_net();
    let mut second = random_net();
    first.train(0.5, inputs, targets, 50, &act);
    second.train(0.5, inputs, targets, 50, &act);
    assert_eq!(first.weights.data, second.weights.data);
    assert_eq!(first.biases.data, second.biases.data);
    assert_eq!(first.next.weights.data, second.next.weights.data);
    assert_eq!(first.next.biases.data, second.next.biases.data);
}

#[test]
fn blank_network_keeps_its_hidden_neurons_alike() {
    let inputs = [[0.0, 0.0], [0.0, 1.0], [1.0, 0.0], [1.0, 1.0]];
    let targets = [[0.0], [1.0], [1.0], [0.0]];
    let act = sigmoid();
    let mut net: Net231 = ProcessLayer::new(ProcessLayer::new(EndLayer()));
    net.train(0.5, inputs, targets, 100, &act);
    assert_ne!(net.weights.data[0], [0.0, 0.0]);
    assert_eq!(net.weights.data[0], net.weights.data[1]);
    assert_eq!(net.weights.data[1], net.weights.data[2]);
    assert_eq!(net.biases.data[0], net.biases.data[2]);
}

#[test]
fn pretrained_network_tells_exclusive_or() {
    let mut net: Net231 = ProcessLayer::new_with(
        ProcessLayer::new_with(EndLayer(), [[-2.4123971, -6.627293, -8.613715]], [4.3186426]),
        [[-8.086764, -8.086563], [-10.876657, -10.877184], [10.14248, 10.143111]],
        [3.3848374, 4.80076, -15.381532],
    );
    let act = sigmoid();
    assert!(net.predict([0.0, 0.0], &act)[0] < 0.2);
    assert!(net.predict([0.0, 1.0], &act)[0] > 0.8);
    assert!(net.predict([1.0, 0.0], &act)[0] > 0.8);
    assert!(net.predict([1.0, 1.0], &act)[0] < 0.2);
}

#[test]
fn single_precision_network_works_alike() {
    let mut net: ProcessLayer<f32, 1, 2, 1, EndLayer<1>> =
        ProcessLayer::new_with(EndLayer(), [[2.0, 3.0]], [1.0]);
    let act = Activation { function: |x: f32| x, derivative: |_y: f32| 1.0 };
    assert_eq!(net.predict([5.0, 7.0], &act), [32.0]);
    net.train(2.0, [[5.0, 7.0]], [[35.0]], 1, &act);
    assert_eq!(net.weights.data, [[32.0, 45.0]]);
}

#[test]
fn layers_can_be_shown() {
    let net: ProcessLayer<f64, 1, 1, 1, EndLayer<1>> =
        ProcessLayer::new_with(EndLayer(), [[2.0]], [1.0]);
    let shown = format!("{:?}", net);
    assert!(shown.contains("weights"));
    assert!(shown.contains("[[2.0]]"));
    assert!(shown.contains("EndLayer"));
}

#[test]
fn train_makes_one_forward_and_one_backward_pass_for_each_example_and_epoch() {
    let forward = Cell::new(0usize);
    let backward = Cell::new(0usize);
    let act = Activation {
        function: |x: f64| {
            forward.set(forward.get() + 1);
            logistic(x)
        },
        derivative: |y: f64| {
            backward.set(backward.get() + 1);
            logistic_slope(y)
        },
    };
    // one stage with one input and two outputs: a forward pass calls the function twice,
    // a backward pass calls the derivative twice at the end and once in the stage
    let mut net: ProcessLayer<f64, 2, 1, 2, EndLayer<2>> = ProcessLayer::new(EndLayer());
    net.train(0.5, [[1.0], [2.0], [3.0]], [[0.0, 1.0], [1.0, 0.0], [1.0, 1.0]], 7, &act);
    assert_eq!(forward.get(), 7 * 3 * 2);
    assert_eq!(backward.get(), 7 * 3 * 3);
    net.predict([1.0], &act);
    assert_eq!(forward.get(), 7 * 3 * 2 + 2);
    assert_eq!(backward.get(), 7 * 3 * 3);
}

#[test]
fn back_propagate_before_any_forward_pass_reads_a_column_of_zeros() {
    let mut net: ProcessLayer<f64, 1, 2, 1, EndLayer<1>> =
        ProcessLayer::new_with(EndLayer(), [[2.0, 3.0]], [1.0]);
    let BackProps(errors, gradients) = net.back_propagate(2.0, [32.0], [35.0], &linear());
    assert_eq!(net.weights.data, [[2.0, 3.0]]);
    assert_eq!(net.biases.data, [[7.0]]);
    assert_eq!(errors.data, [[6.0], [9.0]]);
    assert_eq!(gradients.data, [[1.0], [1.0]]);
}

#[test]
fn train_lets_runaway_numbers_through() {
    let mut net: ProcessLayer<f64, 1, 1, 1, EndLayer<1>> =
        ProcessLayer::new_with(EndLayer(), [[1.0]], [0.0]);
    let act = Activation { function: |x: f64| x * x, derivative: |y: f64| y };
    net.train(1e100, [[1e100]], [[-1e100]], 3, &act);
    assert!(!net.weights.data[0][0].is_finite());
    let out = net.predict([1.0], &act);
    assert!(!out[0].is_finite());
}
