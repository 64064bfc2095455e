//! Smart home library: rooms and devices (thermometers and sockets) kept in
//! key order, their reports, the line protocol of remote outlets and the
//! datagram of remote thermometers, the request handling of the REST
//! service, the smart socket offered to C programs, and the decisions of the
//! outlet and thermometer simulators.
//!
//! Physical quantities are carried as the IEEE 754 bit pattern of a
//! single-precision value (see [`types`]).

pub mod decimal;
pub mod keyed;
pub mod text;
pub mod types;

mod console;
pub mod devices;
pub mod error;
pub mod home;
pub mod report;
pub mod wire;

pub mod api;
pub mod laws;
pub mod loader;
pub mod outlet;
pub mod sim;
pub mod ui;

pub use devices::{Device, DeviceInfo, Socket, Thermometer};
pub use error::SmartHomeError;
pub use home::{HomeBuilder, NoRoom, Room, SmartHome, Subscriber, WithRoom};
pub use report::Report;
pub use types::{Power, Temperature};

use vstd::prelude::*;

verus! {

/// Prints the report of any value implementing [`Report`].
pub fn print_report_value<T: Report>(item: &T)
    requires
        item.is_reportable(),
{
    item.print_report();
}

} // verus!
