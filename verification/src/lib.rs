//! Monte Carlo estimation of a retiree's inflation-adjusted annual withdrawal
//! under a dynamic guardrail policy.
//!
//! Money amounts are fixed-point integers in thousandths of a dollar; rates
//! (returns, inflation, guardrail thresholds, allocation weights) are
//! fixed-point fractions in thousandths (`SCALE` = 1000 is one whole).

pub mod data;
pub mod montecarlo;
pub mod params;
pub mod policy;
pub mod report;
pub mod sampler;
pub mod trial;

pub use params::Params;
