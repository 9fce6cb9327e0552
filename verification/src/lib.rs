//! Self-similarity matrices over sequences of fixed-length feature vectors.

pub mod layout;
pub mod matrix;
