//! A path tracer whose geometry, scattering rules and camera are verified.
//!
//! Real numbers are IEEE-754 binary64 values carried by their bit patterns
//! ([`modules::scalar::Scalar`]). Order, sign and the conversions to and from
//! integers are defined on the bits and proved against the numbers the bits
//! stand for.
//!
//! Two things come from the caller. Rounding arithmetic is an implementation
//! of [`modules::arithmetic::Arithmetic`], typically the machine's own.
//! Random bits are an implementation of [`modules::sampler::Sampler`], a pure
//! source that hands out the source of the bits to come with every draw.
//! Every contract says which operations are asked of the arithmetic, in which
//! order, and from which source each draw is taken; where both are functions,
//! [`modules::determinism`] proves that a configuration, a world and a source
//! give one image.
pub mod modules;
