//! The Chi distribution, decided on bit patterns.
//!
//! [`binary64`] gives each 64-bit pattern the number that it stands for in
//! IEEE 754 binary64 and decides comparisons and the cast to an integer on
//! patterns. [`chi`] builds the distribution on it: the validity of the
//! degrees of freedom, the number of draws in a sample, the existence of a
//! mode, the support, and the rule by which the density, the log-density
//! and the cumulative probability at a point are obtained. No function here
//! uses floating-point arithmetic, and none panics.
pub mod binary64;
pub mod chi;
pub mod error;

pub use crate::chi::{Chi, Cumulative, Density, LogDensity};
pub use crate::error::StatsError;
