//! Choices of an experiment that are not numbers.
use vstd::prelude::*;

verus! {

/// The plant model to simulate.
#[derive(Debug, Clone, Copy)]
pub enum ModelKind {
    TennesseeEastman,
}

/// The numerical integration method.
#[derive(Debug, Clone, Copy)]
pub enum IntegratorKind {
    RK4,
}

} // verus!
