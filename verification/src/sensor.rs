//! Measurement devices between the physical value and the reported one.
use vstd::prelude::*;

verus! {

/// A sensor turns a physical value (a sample of type `X`) into a
/// measurement once per step of `dt`.
pub trait Sensor<X> {
    fn measure(&mut self, physical_value: X, dt: X) -> X;
}

/// A sensor without noise, lag or bias.
pub struct IdealSensor;

impl<X> Sensor<X> for IdealSensor {
    /// An ideal sensor reports the physical value unchanged.
    fn measure(&mut self, physical_value: X, dt: X) -> (m: X)
        ensures
            m == physical_value,
    {
        physical_value
    }
}

} // verus!
