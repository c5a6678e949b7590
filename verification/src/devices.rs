//! Device kinds and the capability they share: exposing a display name.

use vstd::prelude::*;

verus! {

/// A smart socket, identified by its name.
#[derive(Debug, Clone)]
pub struct SmartSocket {
    pub name: String,
}

/// A smart thermometer, identified by its name.
#[derive(Debug, Clone)]
pub struct SmartThermometer {
    pub name: String,
}

/// A device of any known kind. The kinds differ only in their tag; each
/// stores a name and returns it verbatim.
#[derive(Debug, Clone)]
pub enum Device {
    Socket(SmartSocket),
    Thermometer(SmartThermometer),
}

impl Device {
    /// The stored name of the device, whatever its kind.
    pub open spec fn spec_name(&self) -> Seq<char> {
        match self {
            Device::Socket(s) => s.name@,
            Device::Thermometer(t) => t.name@,
        }
    }

    /// Returns a view of the device's stored name.
    pub fn get_name(&self) -> (r: &String)
        ensures
            r@ == self.spec_name(),
    {
        match self {
            Device::Socket(s) => &s.name,
            Device::Thermometer(t) => &t.name,
        }
    }
}

/// The names of the devices, in sequence order.
pub open spec fn device_names(devices: Seq<Device>) -> Seq<Seq<char>> {
    devices.map_values(|d: Device| d.spec_name())
}

} // verus!
