use vstd::prelude::*;

use crate::activators::Activator;
use crate::matrix::Vector;
use crate::network::{Network, TrainableNetwork};
use crate::scalar::{count_of, Real};
use crate::train::optimiser::Optimiser;
use crate::valueset::{leaf_sum, mean, ValueSet};

/// Loss functions.
pub mod loss;
/// The `Optimiser` trait and the ADAM optimiser.
pub mod optimiser;

verus! {

/// `0 + outs[0].0 + ... + outs[k-1].0`: the running total of the losses.
pub open spec fn loss_total<T: Real, V>(outs: Seq<(T, V)>, k: nat) -> T
    decreases k,
{
    if k == 0 {
        T::spec_zero()
    } else {
        loss_total(outs, (k - 1) as nat).spec_add(outs[k - 1].0)
    }
}

/// `loss_function` accepts any two vectors of the right size and returns a
/// gradient of the right size.
pub open spec fn is_loss_function<
    T: Real,
    L: Fn(&Vector<T, O>, &Vector<T, O>) -> (T, Vector<T, O>),
    const O: usize,
>(loss_function: L) -> bool {
    &&& forall|y: Vector<T, O>, p: Vector<T, O>|
        y.wf() && p.wf() ==> #[trigger] call_requires(loss_function, (&y, &p))
    &&& forall|y: Vector<T, O>, p: Vector<T, O>, out: (T, Vector<T, O>)|
        #[trigger] call_ensures(loss_function, (&y, &p), out) ==> out.1.wf()
}

/// Every sample's input and expected output have the network's sizes.
pub open spec fn samples_fit<T: Real, const I: usize, const O: usize>(
    data: Seq<(Vector<T, I>, Vector<T, O>)>,
) -> bool {
    forall|k: int| 0 <= k < data.len() ==> (#[trigger] data[k]).0.wf() && data[k].1.wf()
}

/// The network's prediction for each sample, and what `loss_function`
/// returned for it: `preds[k]` is the output of `network` for the input of
/// sample `k`, and `outs[k]` a result of `loss_function(expected, preds[k])`.
pub open spec fn losses_of<
    T: Real,
    A: Activator<T>,
    L: Fn(&Vector<T, O>, &Vector<T, O>) -> (T, Vector<T, O>),
    N: Network<T, A, I, O>,
    const I: usize,
    const O: usize,
>(
    network: N,
    data: Seq<(Vector<T, I>, Vector<T, O>)>,
    activator: &A,
    loss_function: &L,
    preds: Seq<Vector<T, O>>,
    outs: Seq<(T, Vector<T, O>)>,
) -> bool {
    &&& preds.len() == data.len()
    &&& outs.len() == data.len()
    &&& forall|k: int|
        0 <= k < data.len() ==> {
            &&& (#[trigger] preds[k]).wf()
            &&& preds[k]@ == network.spec_evaluate(data[k].0@, activator)
            &&& call_ensures(*loss_function, (&data[k].1, &preds[k]), outs[k])
        }
}

/// One training epoch, with its intermediate values named: the losses as in
/// `losses_of`; what each sample's forward pass recorded, its gradient and
/// its loss gradient with respect to the inputs; the elementwise mean of the
/// gradients; and the optimiser's step for that mean, which `after` is
/// `before` nudged by.
pub open spec fn is_epoch<
    T: Real,
    A: Activator<T>,
    L: Fn(&Vector<T, O>, &Vector<T, O>) -> (T, Vector<T, O>),
    N: TrainableNetwork<T, A, I, O>,
    P: Optimiser<T, N::Gradient>,
    const I: usize,
    const O: usize,
>(
    before: N,
    after: N,
    optimiser_before: P,
    optimiser_after: P,
    data: Seq<(Vector<T, I>, Vector<T, O>)>,
    activator: &A,
    loss_function: &L,
    preds: Seq<Vector<T, O>>,
    outs: Seq<(T, Vector<T, O>)>,
    records: Seq<N::LayerInputs>,
    gradients: Seq<N::Gradient>,
    input_losses: Seq<Seq<T>>,
    mean_gradient: N::Gradient,
    step: N::Gradient,
) -> bool {
    &&& losses_of(before, data, activator, loss_function, preds, outs)
    &&& records.len() == data.len()
    &&& gradients.len() == data.len()
    &&& input_losses.len() == data.len()
    &&& forall|k: int|
        0 <= k < data.len() ==> {
            &&& before.spec_records(data[k].0@, activator, #[trigger] records[k])
            &&& before.spec_gradient(
                records[k],
                activator,
                outs[k].1@,
                gradients[k],
                input_losses[k],
            )
        }
    &&& mean_gradient.shaped()
    &&& forall|i: int|
        0 <= i < <N::Gradient as ValueSet<T>>::leaf_count() ==> #[trigger] mean_gradient.leaves()[i]
            == leaf_sum(gradients, i, data.len()).spec_div(count_of::<T>(data.len()))
    &&& optimiser_before.spec_transform(&optimiser_after, mean_gradient, step)
    &&& step.shaped()
    &&& after.spec_nudged(before, step)
}

/// Performs one training epoch on `network` with the samples of `data`, each
/// an input and its expected output: every sample is evaluated and
/// backpropagated with the gradient that `loss_function` gives, the mean of
/// the per-sample gradients goes to `optimiser`, and the step it returns is
/// added to the network. Returns the mean of the samples' losses.
pub fn train<
    T: Real,
    A: Activator<T>,
    L: Fn(&Vector<T, O>, &Vector<T, O>) -> (T, Vector<T, O>),
    N: TrainableNetwork<T, A, I, O>,
    P: Optimiser<T, N::Gradient>,
    const I: usize,
    const O: usize,
>(
    data: &[(Vector<T, I>, Vector<T, O>)],
    network: &mut N,
    activator: &A,
    loss_function: &L,
    optimiser: &mut P,
) -> (r: T)
    requires
        old(network).ready(),
        old(optimiser).wf(),
        samples_fit(data@),
        is_loss_function(*loss_function),
    ensures
        final(network).ready(),
        final(optimiser).wf(),
        exists|
            preds: Seq<Vector<T, O>>,
            outs: Seq<(T, Vector<T, O>)>,
            records: Seq<N::LayerInputs>,
            gradients: Seq<N::Gradient>,
            input_losses: Seq<Seq<T>>,
            mean_gradient: N::Gradient,
            step: N::Gradient,
        |
            #[trigger] is_epoch(
                *old(network),
                *final(network),
                *old(optimiser),
                *final(optimiser),
                data@,
                activator,
                loss_function,
                preds,
                outs,
                records,
                gradients,
                input_losses,
                mean_gradient,
                step,
            ) && r == loss_total(outs, data@.len()).spec_div(count_of::<T>(data@.len())),
{
    let ghost net = *network;
    let ghost opt = *optimiser;
    let mut total_loss = T::zero();
    let mut count = T::zero();
    let mut gradients: Vec<N::Gradient> = Vec::new();
    let ghost mut preds: Seq<Vector<T, O>> = Seq::empty();
    let ghost mut outs: Seq<(T, Vector<T, O>)> = Seq::empty();
    let ghost mut records: Seq<N::LayerInputs> = Seq::empty();
    let ghost mut input_losses: Seq<Seq<T>> = Seq::empty();
    let mut k: usize = 0;
    while k < data.len()
        invariant
            *network == net,
            net.ready(),
            samples_fit(data@),
            is_loss_function(*loss_function),
            k <= data@.len(),
            count == count_of::<T>(k as nat),
            preds.len() == k,
            outs.len() == k,
            records.len() == k,
            input_losses.len() == k,
            gradients@.len() == k,
            total_loss == loss_total(outs, k as nat),
            forall|j: int|
                0 <= j < k ==> {
                    &&& (#[trigger] preds[j]).wf()
                    &&& preds[j]@ == net.spec_evaluate(data@[j].0@, activator)
                    &&& call_ensures(*loss_function, (&data@[j].1, &preds[j]), outs[j])
                    &&& net.spec_records(data@[j].0@, activator, records[j])
                    &&& net.spec_gradient(
                        records[j],
                        activator,
                        outs[j].1@,
                        gradients@[j],
                        input_losses[j],
                    )
                },
            forall|j: int| 0 <= j < k ==> (#[trigger] gradients@[j]).shaped(),
        decreases data@.len() - k,
    {
        let input = data[k].0.clone();
        let (predicted, training_data) = network.evaluate_training(input, activator);
        let (instance_loss, loss_gradient) = loss_function(&data[k].1, &predicted);
        let ghost out = (instance_loss, loss_gradient);
        total_loss = total_loss.add(instance_loss);
        count = count.add(T::one());
        // the loss gradient with respect to the inputs has no use here
        let (gradient, input_loss) = network.get_gradient(&training_data, loss_gradient, activator);
        proof {
            lemma_loss_total_push(outs, out, k as nat);
            preds = preds.push(predicted);
            outs = outs.push(out);
            records = records.push(training_data);
            input_losses = input_losses.push(input_loss@);
        }
        gradients.push(gradient);
        k = k + 1;
    }
    let all_gradients = gradients.as_slice();
    let mean_gradient = mean(all_gradients);
    let step = optimiser.transform(&mean_gradient);
    let ghost the_step = step;
    network.apply_nudge(step);
    let r = total_loss.div(count);
    proof {
        assert(gradients@ == all_gradients@);
        assert(losses_of(net, data@, activator, loss_function, preds, outs));
        assert forall|k: int| 0 <= k < data@.len() implies {
            &&& net.spec_records(data@[k].0@, activator, #[trigger] records[k])
            &&& net.spec_gradient(records[k], activator, outs[k].1@, gradients@[k], input_losses[k])
        } by {
            assert(preds[k].wf());
        }
        assert(is_epoch(
            net,
            *network,
            opt,
            *optimiser,
            data@,
            activator,
            loss_function,
            preds,
            outs,
            records,
            gradients@,
            input_losses,
            mean_gradient,
            the_step,
        ));
    }
    r
}

/// The mean loss of `network` over the samples of `data`, without training.
pub fn get_loss<
    T: Real,
    A: Activator<T>,
    L: Fn(&Vector<T, O>, &Vector<T, O>) -> (T, Vector<T, O>),
    N: Network<T, A, I, O>,
    const I: usize,
    const O: usize,
>(data: &[(Vector<T, I>, Vector<T, O>)], network: &N, activator: &A, loss_function: &L) -> (r: T)
    requires
        network.ready(),
        samples_fit(data@),
        is_loss_function(*loss_function),
    ensures
        exists|preds: Seq<Vector<T, O>>, outs: Seq<(T, Vector<T, O>)>|
            #[trigger] losses_of(*network, data@, activator, loss_function, preds, outs) && r
                == loss_total(outs, data@.len()).spec_div(count_of::<T>(data@.len())),
{
    let mut counter = T::zero();
    let mut total = T::zero();
    let ghost mut preds: Seq<Vector<T, O>> = Seq::empty();
    let ghost mut outs: Seq<(T, Vector<T, O>)> = Seq::empty();
    let mut k: usize = 0;
    while k < data.len()
        invariant
            network.ready(),
            samples_fit(data@),
            is_loss_function(*loss_function),
            k <= data@.len(),
            counter == count_of::<T>(k as nat),
            preds.len() == k,
            outs.len() == k,
            total == loss_total(outs, k as nat),
            forall|j: int|
                0 <= j < k ==> {
                    &&& (#[trigger] preds[j]).wf()
                    &&& preds[j]@ == network.spec_evaluate(data@[j].0@, activator)
                    &&& call_ensures(*loss_function, (&data@[j].1, &preds[j]), outs[j])
                },
        decreases data@.len() - k,
    {
        counter = counter.add(T::one());
        let predicted = network.evaluate(&data[k].0, activator);
        let out = loss_function(&data[k].1, &predicted);
        total = total.add(out.0);
        proof {
            lemma_loss_total_push(outs, out, k as nat);
            preds = preds.push(predicted);
            outs = outs.push(out);
        }
        k = k + 1;
    }
    let r = total.div(counter);
    assert(losses_of(*network, data@, activator, loss_function, preds, outs));
    r
}

/// Appending to a sequence keeps the running totals up to its old length.
proof fn lemma_loss_total_push<T: Real, V>(outs: Seq<(T, V)>, out: (T, V), k: nat)
    requires
        k <= outs.len(),
    ensures
        loss_total(outs.push(out), k) == loss_total(outs, k),
    decreases k,
{
    if k > 0 {
        lemma_loss_total_push(outs, out, (k - 1) as nat);
    }
}

} // verus!
