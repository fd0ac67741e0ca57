//! A generic feedforward neural network: layers of weights and biases with a
//! custom activation function, forward evaluation, backpropagation, gradient
//! aggregation and the ADAM optimiser.
//!
//! Everything is generic over a scalar type implementing [`scalar::Real`], so the
//! same algorithms serve 32- and 64-bit floating point alike.

/// The scalar abstraction every algorithm is written against.
pub mod scalar;
/// Activation functions and their gradients.
pub mod activators;
/// Dense matrices and the products the layers need.
pub mod matrix;
/// Elementwise algebra over nested collections of scalars.
pub mod valueset;
/// A single layer: forward pass, backpropagation and parameter updates.
pub mod layer;
/// Networks: a chain of layers with forward and backward passes.
pub mod network;
/// Training: loss functions, optimisers and the training loop.
pub mod train;
/// Two networks composed into one.
pub mod chain;
/// Parameterless vector operations for pre- and post-processing.
pub mod operations;

pub use chain::ChainedNetwork;
pub use network::{
    Gradient, Network, RandomisableNetwork, SimpleNetwork, TrainableNetwork, TrainingInputs,
};
pub use train::{get_loss, loss, optimiser, train};
