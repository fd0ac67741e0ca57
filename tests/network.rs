use nalgebra::{SMatrix, Vector6};
use neural_thingamajigy::activators::{activation_gradient_matrix, Activator, Elu, Linear, Relu, Sigmoid};
use neural_thingamajigy::layer::{Layer, UnitSource};
use neural_thingamajigy::loss::{absoloute_error, squared_error};
use neural_thingamajigy::matrix::{Matrix, Vector};
use neural_thingamajigy::operations::{Exp, Normalize, Softmax, TaxicabNormalize};
use neural_thingamajigy::optimiser::{AdamOptimiser, Optimiser};
use neural_thingamajigy::scalar::Real;
use neural_thingamajigy::valueset::{mean, sum_count, ValueSet};
use neural_thingamajigy::{
    get_loss, train, ChainedNetwork, Gradient, Network, SimpleNetwork, TrainableNetwork,
};
use rand::rngs::StdRng;
use rand::{Rng, SeedableRng};

/// 64-bit floating point as the network's scalar.
#[derive(Clone, Copy, Debug, PartialEq, PartialOrd)]
struct F(f64);

impl Real for F {
    fn zero() -> Self {
        F(0.0)
    }
    fn one() -> Self {
        F(1.0)
    }
    fn min_positive() -> Self {
        F(f64::MIN_POSITIVE)
    }
    fn add(self, o: Self) -> Self {
        F(self.0 + o.0)
    }
    fn sub(self, o: Self) -> Self {
        F(self.0 - o.0)
    }
    fn mul(self, o: Self) -> Self {
        F(self.0 * o.0)
    }
    fn div(self, o: Self) -> Self {
        F(self.0 / o.0)
    }
    fn neg(self) -> Self {
        F(-self.0)
    }
    fn exp(self) -> Self {
        F(self.0.exp())
    }
    fn sqrt(self) -> Self {
        F(self.0.sqrt())
    }
    fn ge(self, o: Self) -> bool {
        self.0 >= o.0
    }
}

/// Draws from a seeded generator, uniform in [0, 1).
struct Draws(StdRng);

impl UnitSource<F> for Draws {
    fn next_unit(&mut self) -> F {
        F(self.0.gen::<f64>())
    }
}

fn vector<const N: usize>(values: &[f64]) -> Vector<F, N> {
    Matrix::from_vec(values.iter().map(|v| F(*v)).collect())
}

fn values<const R: usize, const C: usize>(m: &Matrix<F, R, C>) -> Vec<f64> {
    m.as_vec().iter().map(|v| v.0).collect()
}

fn close(a: f64, b: f64, tolerance: f64) -> bool {
    (a - b).abs() <= tolerance
}

#[test]
fn exp_test() {
    let num = 3f64;
    let input: Vector<F, 1> = vector(&[num]);
    let expected = num.exp();

    assert!(expected - std::f64::consts::E.powf(num) < 0.01);

    assert_eq!(expected, Exp.evaluate(&input, &Sigmoid).get(0, 0).0); // Sigmoid is arbitrary and shouldn't do anything

    let (answer, data) = Exp.evaluate_training(input.clone(), &Sigmoid);
    assert_eq!(expected, answer.get(0, 0).0);

    let (_, grad) = Exp.get_gradient(&data, vector::<1>(&[1.0]), &Sigmoid);
    assert_eq!(grad.get(0, 0).0, expected); // the derivative of e^x is e^x

    let mul = 5f64;
    let (_, grad) = Exp.get_gradient(&data, vector::<1>(&[mul]), &Sigmoid);
    assert_eq!(grad.get(0, 0).0, expected * mul); // scaled by any loss gradient
}

#[test]
fn test_normalize() {
    let raw = [1f64, 7f64, -4f64, std::f64::consts::PI, 100f64, -1700f64];
    let vec: Vector<F, 6> = vector(&raw);
    let expected = Vector6::from_row_slice(&raw).normalize();
    let out = Normalize.evaluate(&vec, &Sigmoid);
    assert_eq!(values(&out), expected.as_slice().to_vec());
    assert!((expected.norm() - 1f64) < 0.001f64);

    let (out, inputs) = Normalize.evaluate_training(vec.clone(), &Sigmoid);
    assert_eq!(values(&out), expected.as_slice().to_vec());

    // must not panic
    let (_, _) = Normalize.get_gradient(&inputs, vector::<6>(&[1.0, 1.0, 1.0, 1.0, 1.0, 1.0]), &Sigmoid);
}

#[test]
fn softmax_test() {
    let softmaxed = values(&Softmax.evaluate(&vector::<3>(&[1.0, 2.0, 3.0]), &Linear));
    let norm = softmaxed.iter().map(|v| v * v).sum::<f64>().sqrt();
    assert!((norm - 1f64) < 0.001f64);
    let expected = [0.090031f64, 0.244728f64, 0.665241f64];
    let distance = softmaxed
        .iter()
        .zip(expected.iter())
        .map(|(a, b)| (a - b) * (a - b))
        .sum::<f64>()
        .sqrt();
    assert!(distance < 0.0001);
}

#[test]
fn valueset_test_gradient_impl() {
    let mut rng = StdRng::seed_from_u64(3);
    let a = SMatrix::<f64, 8, 8>::from_fn(|_, _| rng.gen::<f64>());
    let b = SMatrix::<f64, 8, 8>::from_fn(|_, _| rng.gen::<f64>());
    let row_major = |m: &SMatrix<f64, 8, 8>| -> Matrix<F, 8, 8> {
        let mut data = Vec::new();
        for i in 0..8 {
            for j in 0..8 {
                data.push(F(m[(i, j)]));
            }
        }
        Matrix::from_vec(data)
    };
    let sum = row_major(&a).binary_operation(&row_major(&b), &|p: &F, q: &F| p.add(*q));
    assert_eq!(row_major(&(a + b)).as_vec(), sum.as_vec());
}

#[test]
fn improving_improvement_test() {
    let activator = Sigmoid;
    let mut rng = Draws(StdRng::seed_from_u64(7));
    let mut network = SimpleNetwork::<F, 2, 1, 5, 2>::random(&mut rng);

    let data = [
        (vector::<2>(&[0.0, 0.0]), vector::<1>(&[0.0])),
        (vector::<2>(&[1.0, 0.0]), vector::<1>(&[1.0])),
        (vector::<2>(&[0.0, 1.0]), vector::<1>(&[1.0])),
        (vector::<2>(&[1.0, 1.0]), vector::<1>(&[0.0])),
    ];

    let mut opt = AdamOptimiser::default();

    let first_loss = get_loss(&data, &network, &activator, &squared_error);

    for _ in 0..10 {
        train(&data, &mut network, &activator, &squared_error, &mut opt);
    }

    let last_loss = get_loss(&data, &network, &activator, &squared_error);

    assert!(first_loss >= last_loss)
}

fn sample_network() -> SimpleNetwork<F, 2, 1, 3, 1> {
    let first = Layer::new(
        Matrix::from_vec(vec![F(0.5), F(-0.25), F(0.1), F(0.2), F(-0.3), F(0.4)]),
        vector::<3>(&[0.1, -0.2, 0.3]),
    );
    let hidden = Layer::new(
        Matrix::from_vec(vec![F(0.3), F(-0.1), F(0.2), F(0.0), F(0.5), F(-0.4), F(0.25), F(0.15), F(-0.35)]),
        vector::<3>(&[0.05, 0.0, -0.05]),
    );
    let last = Layer::new(Matrix::from_vec(vec![F(0.6), F(-0.7), F(0.8)]), vector::<1>(&[0.2]));
    SimpleNetwork::new(first, vec![hidden], last).unwrap()
}

fn sigmoid(x: f64) -> f64 {
    1.0 / (1.0 + (-x).exp())
}

#[test]
fn sigmoid_relu_elu_values() {
    assert_eq!(Sigmoid.activation(F(0.0)).0, 0.5);
    assert_eq!(Sigmoid.activation(F(2.0)).0, sigmoid(2.0));
    assert_eq!(Sigmoid.activation_gradient(F(0.0)).0, 0.25);
    let relu = Relu { leaky_gradient: F(0.1) };
    assert_eq!(relu.activation(F(3.0)).0, 3.0);
    assert_eq!(relu.activation(F(-2.0)).0, -0.2);
    assert_eq!(relu.activation_gradient(F(0.0)).0, 1.0);
    assert_eq!(relu.activation_gradient(F(-1.0)).0, 0.1);
    let plain: Relu<F> = Relu::default();
    assert_eq!(plain.activation(F(-5.0)).0, 0.0);
    assert_eq!(Elu.activation(F(1.5)).0, 1.5);
    assert_eq!(Elu.activation(F(-1.0)).0, (-1f64).exp() - 1.0);
    assert_eq!(Elu.activation_gradient(F(-1.0)).0, (-1f64).exp());
    assert_eq!(Elu.activation_gradient(F(0.0)).0, 1.0);
    assert_eq!(Linear.activation(F(-7.0)).0, -7.0);
}

#[test]
fn activation_gradient_matrix_is_diagonal() {
    let m = activation_gradient_matrix(&Sigmoid, &vector::<2>(&[0.0, 2.0]));
    assert_eq!(values(&m), vec![0.25, 0.0, 0.0, sigmoid(2.0) * (1.0 - sigmoid(2.0))]);
}

#[test]
fn matrix_product_and_transpose() {
    let a: Matrix<F, 2, 3> = Matrix::from_vec(vec![F(1.0), F(2.0), F(3.0), F(4.0), F(5.0), F(6.0)]);
    let b: Matrix<F, 3, 1> = vector(&[1.0, 0.0, -1.0]);
    assert_eq!(values(&a.mul(&b)), vec![-2.0, -2.0]);
    assert_eq!(values(&a.transpose()), vec![1.0, 4.0, 2.0, 5.0, 3.0, 6.0]);
    let outer: Matrix<F, 2, 2> = Matrix::outer(&vector::<2>(&[2.0, 3.0]), &vector::<2>(&[5.0, 7.0]));
    assert_eq!(values(&outer), vec![10.0, 14.0, 15.0, 21.0]);
}

#[test]
fn layer_through_adds_bias_after_activation() {
    let layer: Layer<F, 2, 1> = Layer::new(Matrix::from_vec(vec![F(1.0), F(1.0)]), vector::<1>(&[3.0]));
    // sigmoid(1 + 1) + 3, not sigmoid(1 + 1 + 3)
    let out = layer.through(&vector::<2>(&[1.0, 1.0]), &Sigmoid);
    assert_eq!(out.get(0, 0).0, sigmoid(2.0) + 3.0);
}

#[test]
fn backpropogate_linear_layer() {
    let layer: Layer<F, 2, 2> =
        Layer::new(Matrix::from_vec(vec![F(1.0), F(2.0), F(3.0), F(4.0)]), vector::<2>(&[0.0, 0.0]));
    let inputs = vector::<2>(&[5.0, 6.0]);
    let (gradient, input_loss) = layer.backpropogate(vector::<2>(&[1.0, -1.0]), &inputs, &Linear);
    assert_eq!(values(&gradient.bias_gradient), vec![1.0, -1.0]);
    assert_eq!(values(&gradient.weight_gradient), vec![5.0, 6.0, -5.0, -6.0]);
    // weight^T * loss
    assert_eq!(values(&input_loss), vec![1.0 - 3.0, 2.0 - 4.0]);
}

#[test]
fn finite_difference_matches_weight_gradient() {
    let layer: Layer<F, 2, 2> = Layer::new(
        Matrix::from_vec(vec![F(0.3), F(-0.6), F(0.8), F(0.1)]),
        vector::<2>(&[0.2, -0.1]),
    );
    let inputs = vector::<2>(&[0.7, -0.4]);
    let target = vector::<2>(&[0.5, 0.9]);
    let loss_of = |l: &Layer<F, 2, 2>| squared_error(&target, &l.through(&inputs, &Sigmoid)).0 .0;
    let (_, loss_gradient) = squared_error(&target, &layer.through(&inputs, &Sigmoid));
    let (gradient, _) = layer.backpropogate(loss_gradient, &inputs, &Sigmoid);
    let eps = 1e-6;
    for k in 0..4 {
        let mut shift = vec![F(0.0); 4];
        shift[k] = F(eps);
        let mut moved = Layer::new(layer.weight().clone(), layer.bias().clone());
        moved.apply_shifts(Matrix::from_vec(shift), vector::<2>(&[0.0, 0.0]));
        let numeric = (loss_of(&moved) - loss_of(&layer)) / eps;
        assert!(close(numeric, gradient.weight_gradient.as_vec()[k].0, 1e-4));
    }
}

#[test]
fn evaluate_is_deterministic_and_matches_training_pass() {
    let network = sample_network();
    let x = vector::<2>(&[0.3, -0.8]);
    let once = network.evaluate(&x, &Sigmoid);
    let twice = network.evaluate(&x, &Sigmoid);
    assert_eq!(values(&once), values(&twice));
    let (trained, data) = network.evaluate_training(x.clone(), &Sigmoid);
    assert_eq!(values(&once), values(&trained));
    assert_eq!(values(&data.input), vec![0.3, -0.8]);
    assert_eq!(data.hidden_inputs.len(), 1);
    let first_out = network.first().through(&x, &Sigmoid);
    assert_eq!(values(&data.hidden_inputs[0]), values(&first_out));
}

#[test]
fn network_requires_hidden_count() {
    let n = sample_network();
    let first = Layer::new(n.first().weight().clone(), n.first().bias().clone());
    let last = Layer::new(n.last().weight().clone(), n.last().bias().clone());
    let none: Option<SimpleNetwork<F, 2, 1, 3, 1>> = SimpleNetwork::new(first, vec![], last);
    assert!(none.is_none());
}

#[test]
fn zero_hidden_layers() {
    let first: Layer<F, 1, 1> = Layer::new(Matrix::from_vec(vec![F(2.0)]), vector::<1>(&[1.0]));
    let last: Layer<F, 1, 1> = Layer::new(Matrix::from_vec(vec![F(3.0)]), vector::<1>(&[-1.0]));
    let n: SimpleNetwork<F, 1, 1, 1, 0> = SimpleNetwork::new(first, vec![], last).unwrap();
    let out = n.evaluate(&vector::<1>(&[0.5]), &Linear);
    assert_eq!(out.get(0, 0).0, (0.5 * 2.0 + 1.0) * 3.0 - 1.0);
}

#[test]
fn backprop_through_network_matches_layers() {
    let network = sample_network();
    let x = vector::<2>(&[0.3, -0.8]);
    let (_, data) = network.evaluate_training(x.clone(), &Sigmoid);
    let (gradient, input_loss) = network.get_gradient(&data, vector::<1>(&[1.0]), &Sigmoid);
    let (last, up) = network.last().backpropogate(vector::<1>(&[1.0]), &data.hidden_output, &Sigmoid);
    let (hidden, up) = network.hidden()[0].backpropogate(up, &data.hidden_inputs[0], &Sigmoid);
    let (first, input) = network.first().backpropogate(up, &data.input, &Sigmoid);
    assert_eq!(values(&gradient.last.weight_gradient), values(&last.weight_gradient));
    assert_eq!(values(&gradient.hidden[0].weight_gradient), values(&hidden.weight_gradient));
    assert_eq!(values(&gradient.first.bias_gradient), values(&first.bias_gradient));
    assert_eq!(values(&input_loss), values(&input));
}

#[test]
fn apply_nudge_adds_gradient() {
    let mut network = sample_network();
    let before = values(network.hidden()[0].weight());
    let nudge: Gradient<F, 2, 1, 3, 1> = Gradient::all(F(0.5));
    network.apply_nudge(nudge);
    let after = values(network.hidden()[0].weight());
    for (a, b) in after.iter().zip(before.iter()) {
        assert_eq!(*a, *b + 0.5);
    }
    assert_eq!(values(network.last().bias()), vec![0.7]);
}

#[test]
fn random_layers_lie_in_unit_interval() {
    let mut rng = Draws(StdRng::seed_from_u64(11));
    let network = SimpleNetwork::<F, 3, 2, 4, 2>::random(&mut rng);
    let mut all = values(network.first().weight());
    all.extend(values(network.last().bias()));
    for layer in network.hidden() {
        all.extend(values(layer.weight()));
    }
    assert!(all.iter().all(|v| *v >= -1.0 && *v <= 1.0));
    assert!(all.iter().any(|v| *v < 0.0));
}

#[test]
fn squared_and_absolute_error_values() {
    let actual = vector::<2>(&[1.0, 2.0]);
    let predicted = vector::<2>(&[4.0, 6.0]);
    let (loss, gradient) = squared_error(&actual, &predicted);
    assert_eq!(loss.0, 25.0);
    assert_eq!(values(&gradient), vec![6.0, 8.0]);
    let (loss, gradient) = absoloute_error(&actual, &predicted);
    assert_eq!(loss.0, 5.0);
    assert_eq!(values(&gradient), vec![0.6, 0.8]);
}

#[test]
fn absolute_error_at_equal_vectors_is_degenerate() {
    let v = vector::<2>(&[1.0, 2.0]);
    let (loss, gradient) = absoloute_error(&v, &v);
    assert_eq!(loss.0, 0.0);
    assert!(values(&gradient).iter().all(|g| g.is_nan()));
}

#[test]
fn valueset_identity_and_zero_laws() {
    let a: Matrix<F, 2, 2> = Matrix::from_vec(vec![F(1.5), F(-2.0), F(0.0), F(7.25)]);
    assert_eq!(values(&a.unary_operation(&|x: &F| *x)), values(&a));
    let zero: Matrix<F, 2, 2> = Matrix::all(F(0.0));
    assert_eq!(values(&zero.binary_operation(&a, &|p: &F, q: &F| p.add(*q))), values(&a));
    let g: Gradient<F, 2, 1, 3, 1> = Gradient::all(F(2.0));
    let doubled = g.unary_operation(&|x: &F| x.mul(F(2.0)));
    assert!(doubled.hidden[0].weight_gradient.as_vec().iter().all(|v| v.0 == 4.0));
    assert_eq!(doubled.last.bias_gradient.get(0, 0).0, 4.0);
}

#[test]
fn mean_and_sum_count() {
    let items: Vec<Matrix<F, 1, 2>> = vec![
        Matrix::from_vec(vec![F(1.0), F(2.0)]),
        Matrix::from_vec(vec![F(3.0), F(6.0)]),
        Matrix::from_vec(vec![F(5.0), F(-2.0)]),
    ];
    let (sum, count) = sum_count(&items);
    assert_eq!(values(&sum), vec![9.0, 6.0]);
    assert_eq!(count.0, 3.0);
    assert_eq!(values(&mean(&items)), vec![3.0, 2.0]);
}

#[test]
fn adam_defaults() {
    let opt: AdamOptimiser<F, Matrix<F, 1, 1>> = AdamOptimiser::default();
    assert_eq!(opt.learning_rate.0, 0.001);
    assert_eq!(opt.momentum_mixer.0, 0.9);
    assert_eq!(opt.velocity_mixer.0, 0.999);
}

#[test]
fn adam_first_step_follows_gradient_sign() {
    let mut opt: AdamOptimiser<F, Matrix<F, 1, 4>> = AdamOptimiser::default();
    let gradient = Matrix::from_vec(vec![F(0.5), F(-3.0), F(1e-4), F(-2e-3)]);
    let step = opt.transform(&gradient);
    for (s, g) in step.as_vec().iter().zip(gradient.as_vec().iter()) {
        assert!(s.0 * g.0 < 0.0);
        // on the first step the corrected moments reduce to g and g^2
        assert!(close(s.0, -0.001 * g.0.signum(), 1e-6));
    }
}

#[test]
fn adam_second_step_uses_accumulated_powers() {
    let mut opt: AdamOptimiser<F, Matrix<F, 1, 1>> = AdamOptimiser::new(F(0.1), F(0.5), F(0.5));
    let g = Matrix::from_vec(vec![F(2.0)]);
    let _ = opt.transform(&g);
    let step = opt.transform(&g);
    // moments: m = 0.5 * 1 + 2 * 0.5 = 1.5 and v = 0.5 * 2 + 4 * 0.5 = 3; corrected by 1 - 0.25
    let m: f64 = 1.5 / 0.75;
    let v: f64 = 3.0 / 0.75;
    assert!(close(step.get(0, 0).0, -0.1 * m / (v.sqrt() + f64::MIN_POSITIVE), 1e-12));
}

#[test]
fn taxicab_normalize_and_gradient() {
    let x = vector::<2>(&[1.0, 3.0]);
    assert_eq!(values(&TaxicabNormalize.evaluate(&x, &Linear)), vec![0.25, 0.75]);
    let (_, g) = TaxicabNormalize.get_gradient(&x, vector::<2>(&[1.0, 0.0]), &Linear);
    // l / s - (x . l) / s^2 with s = 4, x . l = 1
    assert_eq!(values(&g), vec![0.25 - 1.0 / 16.0, -1.0 / 16.0]);
    // moving along the gradient keeps the sum, so it is orthogonal to x
    let along: f64 = values(&g).iter().zip([1.0, 3.0].iter()).map(|(a, b)| a * b).sum();
    assert!(close(along, 0.0, 1e-12));
}

#[test]
fn softmax_training_matches_evaluate() {
    let x = vector::<3>(&[1.0, 2.0, 3.0]);
    let out = Softmax.evaluate(&x, &Linear);
    let (trained, data) = Softmax.evaluate_training(x.clone(), &Linear);
    assert_eq!(values(&out), values(&trained));
    let sum: f64 = values(&out).iter().sum();
    assert!(close(sum, 1.0, 1e-12));
    let g = values(&Softmax.get_gradient(&data, vector::<3>(&[1.0, 0.0, 0.0]), &Linear).1);
    // back through the normalisation (l / s - (e . l) / s^2), then times e
    let e: Vec<f64> = [1f64, 2.0, 3.0].iter().map(|v| v.exp()).collect();
    let s: f64 = e.iter().sum();
    let l = [1.0, 0.0, 0.0];
    let dot: f64 = e.iter().zip(l.iter()).map(|(a, b)| a * b).sum();
    for i in 0..3 {
        let expected = e[i] * (l[i] / s - dot / (s * s));
        assert!(close(g[i], expected, 1e-12));
        // the softmax Jacobian: s_i (l_i - s . l)
        let soft: Vec<f64> = e.iter().map(|v| v / s).collect();
        let soft_dot: f64 = soft.iter().zip(l.iter()).map(|(a, b)| a * b).sum();
        assert!(close(g[i], soft[i] * (l[i] - soft_dot), 1e-12));
    }
    // a uniform loss gradient has no effect on outputs that always sum to one
    let (_, uniform) = Softmax.get_gradient(&data, vector::<3>(&[1.0, 1.0, 1.0]), &Linear);
    assert!(values(&uniform).iter().all(|v| close(*v, 0.0, 1e-12)));
}

#[test]
fn train_returns_mean_loss_and_moves_network() {
    let mut network = sample_network();
    let data = [
        (vector::<2>(&[0.0, 1.0]), vector::<1>(&[1.0])),
        (vector::<2>(&[1.0, 0.0]), vector::<1>(&[0.0])),
    ];
    let loss_before = get_loss(&data, &network, &Sigmoid, &squared_error);
    let mut expected = 0.0;
    for (x, y) in data.iter() {
        expected += squared_error(y, &network.evaluate(x, &Sigmoid)).0 .0;
    }
    assert!(close(loss_before.0, expected / 2.0, 1e-12));
    let mut opt = AdamOptimiser::default();
    let weight_before = values(network.first().weight());
    let trained_loss = train(&data, &mut network, &Sigmoid, &squared_error, &mut opt);
    assert_eq!(trained_loss.0, loss_before.0);
    assert_ne!(values(network.first().weight()), weight_before);
}

#[test]
fn chained_operations_match_softmax() {
    let x = vector::<3>(&[0.5, -1.0, 2.0]);
    let chain: ChainedNetwork<Exp, TaxicabNormalize, 3> = ChainedNetwork::chain(Exp, TaxicabNormalize);
    assert_eq!(values(&chain.evaluate(&x, &Linear)), values(&Softmax.evaluate(&x, &Linear)));
}

#[test]
fn chained_networks_backpropagate_through_both() {
    let first = sample_network();
    let second_layer: Layer<F, 1, 1> = Layer::new(Matrix::from_vec(vec![F(2.0)]), vector::<1>(&[0.0]));
    let second_last: Layer<F, 1, 1> = Layer::new(Matrix::from_vec(vec![F(1.0)]), vector::<1>(&[0.0]));
    let second: SimpleNetwork<F, 1, 1, 1, 0> = SimpleNetwork::new(second_layer, vec![], second_last).unwrap();
    let mut chain: ChainedNetwork<_, _, 1> = ChainedNetwork::chain(first, second);
    let x = vector::<2>(&[0.3, -0.8]);
    let middle = chain.first.evaluate(&x, &Linear);
    let out = chain.evaluate(&x, &Linear);
    assert_eq!(values(&out), values(&chain.second.evaluate(&middle, &Linear)));
    let (trained, data) = chain.evaluate_training(x.clone(), &Linear);
    assert_eq!(values(&trained), values(&out));
    let (gradient, _) = chain.get_gradient(&data, vector::<1>(&[1.0]), &Linear);
    // the second network scales by two, so the first network's output gradient is 2
    assert_eq!(values(&gradient.0.last.bias_gradient), vec![2.0]);
    TrainableNetwork::<F, Linear, 2, 1>::apply_nudge(&mut chain, gradient);
    assert_eq!(values(chain.second.first().weight()), vec![2.0 + middle.get(0, 0).0]);
}

/// Alternates between the two ends of [0, 1].
struct Ends(bool);

impl UnitSource<F> for Ends {
    fn next_unit(&mut self) -> F {
        self.0 = !self.0;
        if self.0 {
            F(1.0)
        } else {
            F(0.0)
        }
    }
}

#[test]
fn random_layer_maps_draw_ends_to_unit_range_ends() {
    let layer: Layer<F, 2, 1> = Layer::random(&mut Ends(false));
    assert_eq!(values(layer.weight()), vec![1.0, -1.0]);
    assert_eq!(values(layer.bias()), vec![1.0]);
}
