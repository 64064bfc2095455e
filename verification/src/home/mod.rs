//! Rooms, the smart home, and the type-state builder of a home.

pub mod builder;
pub mod room;
pub mod smart_home;

pub use builder::{HomeBuilder, NoRoom, WithRoom};
pub use room::{Room, Subscriber};
pub use smart_home::SmartHome;
