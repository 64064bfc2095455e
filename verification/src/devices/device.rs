//! [`Device`] (a thermometer or a socket) and the [`DeviceInfo`] trait.

use vstd::prelude::*;

use crate::console::emit;
use crate::devices::socket::{socket_copy, socket_eq, Socket};
use crate::devices::thermometer::{thermometer_copy, thermometer_eq, Thermometer};
use crate::report::Report;
use crate::types::is_nan_bits;

verus! {

/// Trait for all smart home devices.
pub trait DeviceInfo {
    /// The device's name.
    spec fn device_name(&self) -> Seq<char>;

    /// `text` is a state line this device can give.
    spec fn is_state_text(&self, text: Seq<char>) -> bool;

    /// Returns the device name.
    fn name(&self) -> (r: &str)
        ensures
            r@ == self.device_name(),
    ;

    /// Returns a line describing the device's state.
    fn state(&self) -> (r: String)
        ensures
            self.is_state_text(r@),
    ;

    /// Prints the state line to standard output.
    fn print_info(&self) {
        let mut line = self.state();
        line.append("\n");
        emit(line.as_str());
    }
}

/// A device: a thermometer or a socket.
#[derive(Debug)]
pub enum Device {
    Thermometer(Thermometer),
    Socket(Socket),
}

impl Device {
    /// Prints the device's state line to standard output.
    pub fn print_state(&self) {
        match self {
            Device::Thermometer(t) => t.print_info(),
            Device::Socket(s) => s.print_info(),
        }
    }
}

impl DeviceInfo for Device {
    open spec fn device_name(&self) -> Seq<char> {
        match self {
            Device::Thermometer(t) => t.device_name(),
            Device::Socket(s) => s.device_name(),
        }
    }

    open spec fn is_state_text(&self, text: Seq<char>) -> bool {
        match self {
            Device::Thermometer(t) => t.is_state_text(text),
            Device::Socket(s) => s.is_state_text(text),
        }
    }

    fn name(&self) -> (r: &str) {
        match self {
            Device::Thermometer(t) => t.name(),
            Device::Socket(s) => s.name(),
        }
    }

    fn state(&self) -> (r: String) {
        match self {
            Device::Thermometer(t) => {
                let r = t.state();
                assert(t.is_state_text(r@));
                assert(self.is_state_text(r@));
                r
            },
            Device::Socket(s) => {
                let r = s.state();
                assert(s.is_state_text(r@));
                assert(self.is_state_text(r@));
                r
            },
        }
    }
}

impl Report for Device {
    open spec fn is_reportable(&self) -> bool {
        true
    }

    open spec fn is_report_text(&self, text: Seq<char>) -> bool {
        match self {
            Device::Thermometer(t) => t.is_report_text(text),
            Device::Socket(s) => s.is_report_text(text),
        }
    }

    fn report(&self) -> (r: String) {
        match self {
            Device::Thermometer(t) => {
                let r = t.report();
                assert(t.is_report_text(r@));
                assert(self.is_report_text(r@));
                r
            },
            Device::Socket(s) => {
                let r = s.report();
                assert(s.is_report_text(r@));
                assert(self.is_report_text(r@));
                r
            },
        }
    }
}

/// `b` is a copy of `a`: the same kind, and a copy of the same device.
pub open spec fn device_copy(a: &Device, b: &Device) -> bool {
    match (a, b) {
        (Device::Thermometer(x), Device::Thermometer(y)) => thermometer_copy(x, y),
        (Device::Socket(x), Device::Socket(y)) => socket_copy(x, y),
        _ => false,
    }
}

/// Copying as a spec function value.
pub open spec fn device_copying() -> spec_fn(Device, Device) -> bool {
    |a: Device, b: Device| device_copy(&a, &b)
}

/// The device's quantities are numbers: a socket's rated power, a local
/// thermometer's reading (NaN equals nothing, not even itself).
pub open spec fn device_numeric(d: &Device) -> bool {
    match d {
        Device::Thermometer(t) => t.udp_view() || !is_nan_bits(t.base_view()),
        Device::Socket(s) => !is_nan_bits(s.rated_view()),
    }
}

impl Clone for Device {
    fn clone(&self) -> (r: Device)
        ensures
            device_copy(self, &r),
    {
        match self {
            Device::Thermometer(t) => Device::Thermometer(t.clone()),
            Device::Socket(s) => Device::Socket(s.clone()),
        }
    }
}

/// Devices are equal when they are of the same kind and their devices are equal.
pub open spec fn device_eq(a: &Device, b: &Device) -> bool {
    match (a, b) {
        (Device::Thermometer(x), Device::Thermometer(y)) => thermometer_eq(x, y),
        (Device::Socket(x), Device::Socket(y)) => socket_eq(x, y),
        _ => false,
    }
}

impl PartialEq for Device {
    fn eq(&self, other: &Device) -> (r: bool) {
        match (self, other) {
            (Device::Thermometer(x), Device::Thermometer(y)) => *x == *y,
            (Device::Socket(x), Device::Socket(y)) => *x == *y,
            _ => false,
        }
    }
}

impl vstd::std_specs::cmp::PartialEqSpecImpl for Device {
    open spec fn obeys_eq_spec() -> bool {
        true
    }

    open spec fn eq_spec(&self, other: &Device) -> bool {
        device_eq(self, other)
    }
}

impl From<Thermometer> for Device {
    fn from(t: Thermometer) -> (r: Device) {
        Device::Thermometer(t)
    }
}

impl vstd::std_specs::convert::FromSpecImpl<Thermometer> for Device {
    open spec fn obeys_from_spec() -> bool {
        true
    }

    open spec fn from_spec(t: Thermometer) -> Device {
        Device::Thermometer(t)
    }
}

impl From<Socket> for Device {
    fn from(s: Socket) -> (r: Device) {
        Device::Socket(s)
    }
}

impl vstd::std_specs::convert::FromSpecImpl<Socket> for Device {
    open spec fn obeys_from_spec() -> bool {
        true
    }

    open spec fn from_spec(s: Socket) -> Device {
        Device::Socket(s)
    }
}

} // verus!
