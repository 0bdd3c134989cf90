//! Black-Scholes option pricing over decimal fixed-point numbers, with the
//! validation of contract terms that must precede it.

pub mod black_scholes_model;
pub mod constants;
pub mod errors;
pub mod fixed;
pub mod option_create;
pub mod pricing_laws;
pub mod types;
pub mod validate_option;
