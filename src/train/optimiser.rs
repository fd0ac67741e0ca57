use vstd::prelude::*;

use crate::scalar::{count_of, small_integer, Real};
use crate::valueset::ValueSet;

verus! {

/// Turns a gradient into the step to take.
pub trait Optimiser<T, G: ValueSet<T>> {
    /// The optimiser's state is consistent.
    spec fn wf(&self) -> bool;

    /// From state `self`, `transform(gradient)` may return `step` and leave
    /// the optimiser in state `after`.
    spec fn spec_transform(&self, after: &Self, gradient: G, step: G) -> bool;

    /// The step to take for `gradient`.
    fn transform(&mut self, gradient: &G) -> (r: G)
        requires
            old(self).wf(),
            gradient.shaped(),
        ensures
            final(self).wf(),
            r.shaped(),
            old(self).spec_transform(&*final(self), *gradient, r),
    ;
}

/// `m * b1 + g * (1 - b1)`: the next first moment.
pub open spec fn next_momentum<T: Real>(m: T, g: T, b1: T) -> T {
    m.spec_mul(b1).spec_add(g.spec_mul(T::spec_one().spec_sub(b1)))
}

/// `v * b2 + g * g * (1 - b2)`: the next second moment.
pub open spec fn next_velocity<T: Real>(v: T, g: T, b2: T) -> T {
    v.spec_mul(b2).spec_add(g.spec_mul(g).spec_mul(T::spec_one().spec_sub(b2)))
}

/// `x / (1 - acc)`: a moment corrected for its bias towards zero.
pub open spec fn corrected<T: Real>(x: T, acc: T) -> T {
    x.spec_div(T::spec_one().spec_sub(acc))
}

/// `-lr * m / (sqrt(v) + eps)`, `eps` the smallest positive scalar.
pub open spec fn adam_step<T: Real>(lr: T, m: T, v: T) -> T {
    lr.spec_neg().spec_mul(m).spec_div(v.spec_sqrt().spec_add(T::spec_min_positive()))
}

/// The ADAM optimiser.
pub struct AdamOptimiser<T, G> {
    /// The running average of the gradient.
    momentum: G,
    /// The running average of the squared gradient.
    velocity: G,
    /// The learning rate (alpha).
    pub learning_rate: T,
    /// The momentum mixing coefficient (beta1).
    pub momentum_mixer: T,
    /// The velocity mixing coefficient (beta2).
    pub velocity_mixer: T,
    /// `beta1 ^ t` for the coming step `t`.
    accumulated_momentum: T,
    /// `beta2 ^ t` for the coming step `t`.
    accumulated_velocity: T,
}

impl<T: Real, G: ValueSet<T>> AdamOptimiser<T, G> {
    /// The running average of the gradient.
    pub closed spec fn spec_momentum(&self) -> G {
        self.momentum
    }

    /// The running average of the squared gradient.
    pub closed spec fn spec_velocity(&self) -> G {
        self.velocity
    }

    /// The learning rate.
    pub closed spec fn spec_learning_rate(&self) -> T {
        self.learning_rate
    }

    /// The momentum mixing coefficient.
    pub closed spec fn spec_momentum_mixer(&self) -> T {
        self.momentum_mixer
    }

    /// The velocity mixing coefficient.
    pub closed spec fn spec_velocity_mixer(&self) -> T {
        self.velocity_mixer
    }

    /// `beta1 ^ t` for the coming step `t`.
    pub closed spec fn spec_accumulated_momentum(&self) -> T {
        self.accumulated_momentum
    }

    /// `beta2 ^ t` for the coming step `t`.
    pub closed spec fn spec_accumulated_velocity(&self) -> T {
        self.accumulated_velocity
    }

    /// Both moments are zero everywhere.
    pub open spec fn at_rest(&self) -> bool {
        &&& forall|i: int|
            0 <= i < G::leaf_count() ==> #[trigger] self.spec_momentum().leaves()[i] == T::spec_zero()
        &&& forall|i: int|
            0 <= i < G::leaf_count() ==> #[trigger] self.spec_velocity().leaves()[i] == T::spec_zero()
    }

    /// An optimiser with the given hyperparameters and zero moments, about
    /// to take its first step.
    pub fn new(learning_rate: T, momentum_mixer: T, velocity_mixer: T) -> (r: Self)
        ensures
            r.wf(),
            r.at_rest(),
            r.spec_learning_rate() == learning_rate,
            r.spec_momentum_mixer() == momentum_mixer,
            r.spec_velocity_mixer() == velocity_mixer,
            r.spec_accumulated_momentum() == momentum_mixer,
            r.spec_accumulated_velocity() == velocity_mixer,
    {
        AdamOptimiser {
            momentum: G::all(T::zero()),
            velocity: G::all(T::zero()),
            learning_rate,
            momentum_mixer,
            velocity_mixer,
            accumulated_momentum: momentum_mixer,
            accumulated_velocity: velocity_mixer,
        }
    }
}

impl<T: Real, G: ValueSet<T>> Default for AdamOptimiser<T, G> {
    /// The usual hyperparameters: a learning rate of `1/1000`, mixers of
    /// `9/10` and `999/1000`.
    fn default() -> (r: Self)
        ensures
            r.wf(),
            r.at_rest(),
            r.spec_learning_rate() == count_of::<T>(1).spec_div(count_of::<T>(1000)),
            r.spec_momentum_mixer() == count_of::<T>(9).spec_div(count_of::<T>(10)),
            r.spec_velocity_mixer() == count_of::<T>(999).spec_div(count_of::<T>(1000)),
            r.spec_accumulated_momentum() == r.spec_momentum_mixer(),
            r.spec_accumulated_velocity() == r.spec_velocity_mixer(),
    {
        let thousand: T = small_integer(1000);
        let learning_rate = small_integer::<T>(1).div(thousand);
        let momentum_mixer = small_integer::<T>(9).div(small_integer(10));
        let velocity_mixer = small_integer::<T>(999).div(thousand);
        Self::new(learning_rate, momentum_mixer, velocity_mixer)
    }
}

impl<T: Real, G: ValueSet<T>> Optimiser<T, G> for AdamOptimiser<T, G> {
    open spec fn wf(&self) -> bool {
        self.spec_momentum().shaped() && self.spec_velocity().shaped()
    }

    open spec fn spec_transform(&self, after: &Self, gradient: G, step: G) -> bool {
        let b1 = self.spec_momentum_mixer();
        let b2 = self.spec_velocity_mixer();
        &&& after.spec_learning_rate() == self.spec_learning_rate()
        &&& after.spec_momentum_mixer() == b1
        &&& after.spec_velocity_mixer() == b2
        &&& after.spec_accumulated_momentum() == self.spec_accumulated_momentum().spec_mul(b1)
        &&& after.spec_accumulated_velocity() == self.spec_accumulated_velocity().spec_mul(b2)
        &&& forall|i: int|
            0 <= i < G::leaf_count() ==> {
                let m = next_momentum(self.spec_momentum().leaves()[i], gradient.leaves()[i], b1);
                let v = next_velocity(self.spec_velocity().leaves()[i], gradient.leaves()[i], b2);
                &&& #[trigger] after.spec_momentum().leaves()[i] == m
                &&& after.spec_velocity().leaves()[i] == v
                &&& step.leaves()[i] == adam_step(
                    self.spec_learning_rate(),
                    corrected(m, self.spec_accumulated_momentum()),
                    corrected(v, self.spec_accumulated_velocity()),
                )
            }
    }

    fn transform(&mut self, gradient: &G) -> (r: G) {
        let b1 = self.momentum_mixer;
        let b2 = self.velocity_mixer;
        let lr = self.learning_rate;
        let acc_m = self.accumulated_momentum;
        let acc_v = self.accumulated_velocity;
        let ghost before = *self;
        // the moments for this step
        let mix_momentum = |mom: &T, gra: &T| -> (r: T)
            ensures
                r == next_momentum(*mom, *gra, b1),
            { mom.mul(b1).add(gra.mul(T::one().sub(b1))) };
        let mix_velocity = |vel: &T, gra: &T| -> (r: T)
            ensures
                r == next_velocity(*vel, *gra, b2),
            { vel.mul(b2).add(gra.mul(*gra).mul(T::one().sub(b2))) };
        self.momentum = self.momentum.binary_operation(gradient, &mix_momentum);
        self.velocity = self.velocity.binary_operation(gradient, &mix_velocity);
        // the moments corrected for their bias towards zero
        let correct_momentum = |mom: &T| -> (r: T)
            ensures
                r == corrected(*mom, acc_m),
            { mom.div(T::one().sub(acc_m)) };
        let correct_velocity = |vel: &T| -> (r: T)
            ensures
                r == corrected(*vel, acc_v),
            { vel.div(T::one().sub(acc_v)) };
        let corrected_momentum = self.momentum.unary_operation(&correct_momentum);
        let corrected_velocity = self.velocity.unary_operation(&correct_velocity);
        self.accumulated_momentum = acc_m.mul(b1);
        self.accumulated_velocity = acc_v.mul(b2);
        let step_of = |mom: &T, vel: &T| -> (r: T)
            ensures
                r == adam_step(lr, *mom, *vel),
            { lr.neg().mul(*mom).div(vel.sqrt().add(T::min_positive())) };
        let r = corrected_momentum.binary_operation(&corrected_velocity, &step_of);
        proof {
            assert forall|i: int| 0 <= i < G::leaf_count() implies {
                let m = next_momentum(before.momentum.leaves()[i], gradient.leaves()[i], b1);
                let v = next_velocity(before.velocity.leaves()[i], gradient.leaves()[i], b2);
                &&& #[trigger] self.momentum.leaves()[i] == m
                &&& self.velocity.leaves()[i] == v
                &&& r.leaves()[i] == adam_step(lr, corrected(m, acc_m), corrected(v, acc_v))
            } by {
                assert(self.velocity.leaves()[i] == next_velocity(
                    before.velocity.leaves()[i],
                    gradient.leaves()[i],
                    b2,
                ));
                assert(corrected_momentum.leaves()[i] == corrected(self.momentum.leaves()[i], acc_m));
                assert(corrected_velocity.leaves()[i] == corrected(self.velocity.leaves()[i], acc_v));
            }
        }
        r
    }
}

/// The first step from rest: when both moments are zero and the accumulated
/// powers are the mixers themselves, each scalar of the step is the ADAM
/// update of the gradient's scalar alone, with the zero moments mixed in.
pub proof fn lemma_first_step<T: Real, G: ValueSet<T>>(
    before: AdamOptimiser<T, G>,
    after: AdamOptimiser<T, G>,
    gradient: G,
    step: G,
)
    requires
        before.at_rest(),
        before.spec_accumulated_momentum() == before.spec_momentum_mixer(),
        before.spec_accumulated_velocity() == before.spec_velocity_mixer(),
        before.spec_transform(&after, gradient, step),
    ensures
        forall|i: int|
            0 <= i < G::leaf_count() ==> #[trigger] step.leaves()[i] == adam_step(
                before.spec_learning_rate(),
                corrected(
                    next_momentum(T::spec_zero(), gradient.leaves()[i], before.spec_momentum_mixer()),
                    before.spec_momentum_mixer(),
                ),
                corrected(
                    next_velocity(T::spec_zero(), gradient.leaves()[i], before.spec_velocity_mixer()),
                    before.spec_velocity_mixer(),
                ),
            ),
{
    assert forall|i: int| 0 <= i < G::leaf_count() implies #[trigger] step.leaves()[i] == adam_step(
        before.spec_learning_rate(),
        corrected(
            next_momentum(T::spec_zero(), gradient.leaves()[i], before.spec_momentum_mixer()),
            before.spec_momentum_mixer(),
        ),
        corrected(
            next_velocity(T::spec_zero(), gradient.leaves()[i], before.spec_velocity_mixer()),
            before.spec_velocity_mixer(),
        ),
    ) by {
        assert(before.spec_momentum().leaves()[i] == T::spec_zero());
        assert(before.spec_velocity().leaves()[i] == T::spec_zero());
        assert(after.spec_momentum().leaves()[i] == next_momentum(
            before.spec_momentum().leaves()[i],
            gradient.leaves()[i],
            before.spec_momentum_mixer(),
        ));
    }
}

} // verus!
