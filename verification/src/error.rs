//! [`SmartHomeError`]: a room or a device that a lookup did not find.

use vstd::prelude::*;

verus! {

/// Error when resolving a room or device in a [`crate::SmartHome`].
#[derive(Debug, Clone)]
pub enum SmartHomeError {
    /// No room with the given key.
    RoomNotFound { room: String },
    /// Room exists, but no device with the given key.
    DeviceNotFound { room: String, device: String },
}

/// The message of an error: `room not found: <room>` or
/// `device not found: <device> (in room <room>)`.
pub open spec fn error_message(e: SmartHomeError) -> Seq<char> {
    match e {
        SmartHomeError::RoomNotFound { room } => "room not found: "@ + room@,
        SmartHomeError::DeviceNotFound { room, device } => "device not found: "@ + device@
            + " (in room "@ + room@ + ")"@,
    }
}

/// Errors are equal when they are of the same kind with the same names.
pub open spec fn error_eq(a: SmartHomeError, b: SmartHomeError) -> bool {
    match (a, b) {
        (SmartHomeError::RoomNotFound { room: x }, SmartHomeError::RoomNotFound { room: y }) => x@
            == y@,
        (
            SmartHomeError::DeviceNotFound { room: x, device: d },
            SmartHomeError::DeviceNotFound { room: y, device: e },
        ) => x@ == y@ && d@ == e@,
        _ => false,
    }
}

impl SmartHomeError {
    /// The human-readable message of the error.
    pub fn message(&self) -> (r: String)
        ensures
            r@ == error_message(*self),
    {
        let mut s = String::new();
        match self {
            SmartHomeError::RoomNotFound { room } => {
                s.append("room not found: ");
                s.append(room.as_str());
            },
            SmartHomeError::DeviceNotFound { room, device } => {
                s.append("device not found: ");
                s.append(device.as_str());
                s.append(" (in room ");
                s.append(room.as_str());
                s.append(")");
            },
        }
        s
    }
}

impl PartialEq for SmartHomeError {
    fn eq(&self, other: &SmartHomeError) -> (r: bool) {
        match (self, other) {
            (SmartHomeError::RoomNotFound { room: x }, SmartHomeError::RoomNotFound { room: y }) => {
                *x == *y
            },
            (
                SmartHomeError::DeviceNotFound { room: x, device: d },
                SmartHomeError::DeviceNotFound { room: y, device: e },
            ) => *x == *y && *d == *e,
            _ => false,
        }
    }
}

impl vstd::std_specs::cmp::PartialEqSpecImpl for SmartHomeError {
    open spec fn obeys_eq_spec() -> bool {
        true
    }

    open spec fn eq_spec(&self, other: &SmartHomeError) -> bool {
        error_eq(*self, *other)
    }
}

} // verus!
