//! Pseudo-random number generation for environments where real entropy is
//! scarce: a linear-congruential generator generic over the unsigned integer
//! width, a seed finalizer over locally observed noise, and the conversion of
//! raw entropy bytes into a machine-word seed.

pub mod word;
pub mod rng;
pub mod true_rng;
