//! Exact rational numbers over an ordered-ring scalar, kept in lowest terms
//! with the sign carried by the numerator.

pub mod factor;
pub mod ops;
pub mod rat;
pub mod ratio;
pub mod rules;
pub mod text;
