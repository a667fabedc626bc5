//! A multilayer-perceptron learning engine.
//!
//! The network itself is generic over the scalar type: the engine owns the
//! layer/weight data model, forward propagation, backpropagation (with an
//! optional sparsity penalty for autoencoder training) and batched weight
//! updates, while the arithmetic on scalars is supplied by the caller through
//! the [`scalar::Scalar`] trait.

pub mod activation_func;
pub mod autoencoder;
pub mod classifier;
pub mod gzip;
pub mod map_in_place;
pub mod matrix;
pub mod mnist;
pub mod multilayer_perceptron;
pub mod scalar;
pub mod util;
pub mod validators;
pub mod window_gui;
