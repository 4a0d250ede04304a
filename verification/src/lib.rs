//! Arithmetic kernels for a small feed-forward neural network: factorial and
//! integer power with exact contracts, and the shape-level matrix operations
//! (transposition, multiplication shape validation) that do not depend on the
//! element type.

pub mod arithm_functions;
