use vstd::prelude::*;

use crate::activators::Activator;
use crate::matrix::Vector;
use crate::network::{Network, TrainableNetwork};
use crate::scalar::Real;

verus! {

/// Two networks evaluated one after the other: `first` turns the inputs
/// into `M` values, which `second` turns into the outputs.
pub struct ChainedNetwork<P, Q, const M: usize> {
    /// The network evaluated first.
    pub first: P,
    /// The network evaluated next.
    pub second: Q,
}

impl<P, Q, const M: usize> ChainedNetwork<P, Q, M> {
    /// `first` followed by `second`.
    pub fn chain(first: P, second: Q) -> (r: Self)
        ensures
            r.first == first,
            r.second == second,
    {
        ChainedNetwork { first, second }
    }
}

impl<
    T: Real,
    A: Activator<T>,
    const I: usize,
    const M: usize,
    const O: usize,
    P: Network<T, A, I, M>,
    Q: Network<T, A, M, O>,
> Network<T, A, I, O> for ChainedNetwork<P, Q, M> {
    open spec fn ready(&self) -> bool {
        self.first.ready() && self.second.ready()
    }

    open spec fn spec_evaluate(&self, x: Seq<T>, activator: &A) -> Seq<T> {
        self.second.spec_evaluate(self.first.spec_evaluate(x, activator), activator)
    }

    fn evaluate(&self, inputs: &Vector<T, I>, activator: &A) -> (r: Vector<T, O>) {
        let middle = self.first.evaluate(inputs, activator);
        self.second.evaluate(&middle, activator)
    }
}

impl<
    T: Real,
    A: Activator<T>,
    const I: usize,
    const M: usize,
    const O: usize,
    P: TrainableNetwork<T, A, I, M>,
    Q: TrainableNetwork<T, A, M, O>,
> TrainableNetwork<T, A, I, O> for ChainedNetwork<P, Q, M> {
    type LayerInputs = (P::LayerInputs, Q::LayerInputs);

    type Gradient = (P::Gradient, Q::Gradient);

    open spec fn spec_records(
        &self,
        x: Seq<T>,
        activator: &A,
        data: (P::LayerInputs, Q::LayerInputs),
    ) -> bool {
        &&& self.first.spec_records(x, activator, data.0)
        &&& self.second.spec_records(self.first.spec_evaluate(x, activator), activator, data.1)
    }

    open spec fn spec_fits(&self, data: (P::LayerInputs, Q::LayerInputs)) -> bool {
        self.first.spec_fits(data.0) && self.second.spec_fits(data.1)
    }

    /// Some loss gradient `m` with respect to the values between the two
    /// networks links the second network's backpropagation to the first's.
    open spec fn spec_gradient(
        &self,
        data: (P::LayerInputs, Q::LayerInputs),
        activator: &A,
        l: Seq<T>,
        g: (P::Gradient, Q::Gradient),
        input_loss: Seq<T>,
    ) -> bool {
        exists|m: Seq<T>|
            #[trigger] self.second.spec_gradient(data.1, activator, l, g.1, m)
                && self.first.spec_gradient(data.0, activator, m, g.0, input_loss)
    }

    open spec fn spec_nudged(&self, before: Self, nudge: (P::Gradient, Q::Gradient)) -> bool {
        &&& self.first.spec_nudged(before.first, nudge.0)
        &&& self.second.spec_nudged(before.second, nudge.1)
    }

    fn evaluate_training(&self, inputs: Vector<T, I>, activator: &A) -> (r: (
        Vector<T, O>,
        (P::LayerInputs, Q::LayerInputs),
    )) {
        let (middle, first_data) = self.first.evaluate_training(inputs, activator);
        let (outputs, second_data) = self.second.evaluate_training(middle, activator);
        (outputs, (first_data, second_data))
    }

    fn get_gradient(
        &self,
        layer_inputs: &(P::LayerInputs, Q::LayerInputs),
        output_loss_gradients: Vector<T, O>,
        activator: &A,
    ) -> (r: ((P::Gradient, Q::Gradient), Vector<T, I>)) {
        let (second_gradient, middle_loss_gradient) = self.second.get_gradient(
            &layer_inputs.1,
            output_loss_gradients,
            activator,
        );
        let ghost m = middle_loss_gradient@;
        let (first_gradient, input_loss_gradient) = self.first.get_gradient(
            &layer_inputs.0,
            middle_loss_gradient,
            activator,
        );
        ((first_gradient, second_gradient), input_loss_gradient)
    }

    fn apply_nudge(&mut self, nudge: (P::Gradient, Q::Gradient)) {
        let (first_nudge, second_nudge) = nudge;
        self.first.apply_nudge(first_nudge);
        self.second.apply_nudge(second_nudge);
    }
}

} // verus!
