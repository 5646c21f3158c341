//! Descriptive properties of benchmark test functions.
use vstd::prelude::*;

verus! {

/// Property of a test function.
#[derive(Debug, Clone, Copy, PartialEq, Eq, Hash, PartialOrd, Ord)]
pub enum Property {
    Continous,
    Multimodal,
    Convex,
    Differentiable,
    Separable,
}

} // verus!
