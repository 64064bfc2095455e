//! Devices: [`Socket`], [`Thermometer`], the [`Device`] enum and [`DeviceInfo`].

pub mod device;
pub mod socket;
pub mod thermometer;

pub use device::{Device, DeviceInfo};
pub use socket::Socket;
pub use thermometer::Thermometer;
