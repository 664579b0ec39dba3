//! Models that move to another device.

use crate::config::{device_named, open_device, Device};
use crate::models::Model;
use crate::Error;
use vstd::prelude::*;

verus! {

/// Where a model runs that can move.
pub struct Placement {
    device: Device,
}

impl Placement {
    /// Where the model runs.
    pub closed spec fn runs_on(&self) -> Device {
        self.device
    }

    /// A model on a device.
    pub fn new(device: Device) -> (r: Self)
        ensures
            r.runs_on() == device,
    {
        Placement { device }
    }

    /// Takes what opening a device came to: the model moves to the one that opened, and stays
    /// where none did.
    pub fn moved(&mut self, opened: Result<Device, String>) -> (r: Result<(), Error>)
        ensures
            match opened {
                Ok(target) => r is Ok && final(self).runs_on() == target,
                Err(m) => final(self).runs_on() == old(self).runs_on() && (r matches Err(
                    Error::ModelLoadError(e),
                ) && e@ == m@),
            },
    {
        match opened {
            Ok(target) => {
                self.device = target;
                Ok(())
            },
            Err(m) => Err(Error::ModelLoadError(m)),
        }
    }
}

impl Model for Placement {
    open spec fn place(&self) -> Device {
        self.runs_on()
    }

    fn device(&self) -> (r: &str) {
        self.device.as_str()
    }

    /// Moves to the device that a name stands for: CUDA, Metal, or the CPU for any other name.
    fn to_device(&mut self, device: &str) -> (r: Result<(), Error>)
        ensures
            device_named(device@) is Cpu ==> r is Ok,
            match r {
                Ok(_) => final(self).runs_on() == device_named(device@),
                Err(e) => final(self).runs_on() == old(self).runs_on() && e is ModelLoadError,
            },
    {
        let opened = open_device(Device::from_lowercase(device));
        self.moved(opened)
    }
}

} // verus!
