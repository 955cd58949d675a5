//! What the bus knows of the state of the device.

use vstd::prelude::*;

verus! {

/// The state of a device on the bus.
#[derive(Clone, Copy, Debug, PartialEq, Eq, Structural)]
pub struct Device {
    pub enumerated: bool,
    pub suspended: bool,
}

impl Device {
    /// A device as it is plugged in: not enumerated, and suspended.
    pub fn new() -> (device: Device)
        ensures
            device == (Device { enumerated: false, suspended: true }),
    {
        Device { enumerated: false, suspended: true }
    }
}

} // verus!
