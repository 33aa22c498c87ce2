//! Uniform sampling within a range.
use vstd::prelude::*;

pub mod integer;
mod types;
pub mod unbiased;

verus! {

/// Error type returned from the constructors of the uniform samplers.
#[derive(Clone, Copy, Debug, PartialEq, Eq, Structural)]
pub enum UniformError {
    /// `low > high`, or equal in case of an exclusive range.
    EmptyRange,
    /// Input or range `high - low` is non-finite. Not relevant to integer types.
    NonFinite,
}

} // verus!
