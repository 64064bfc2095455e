//! The decisions of the browser front end: the requests its "Add room" and
//! "Add device" forms send, the switch state it shows for a device and
//! whether it offers the switch, the paths it requests, and the message a
//! list page shows while loading, on failure or when empty. Rendering and
//! HTTP stay with the front end.

use vstd::prelude::*;

use crate::api::{CreateDevice, CreateRoom, DeviceKind};

verus! {

/// `s` with every space written as `%20`.
pub open spec fn url_segment_text(s: Seq<char>) -> Seq<char>
    decreases s.len(),
{
    if s.len() == 0 {
        seq![]
    } else {
        url_segment_text(s.drop_last()) + (if s.last() == ' ' {
            "%20"@
        } else {
            seq![s.last()]
        })
    }
}

/// A path segment for a request URL: every space is written as `%20`, every
/// other character is kept.
pub fn urlencoding(s: &str) -> (r: String)
    ensures
        r@ == url_segment_text(s@),
{
    let n = s.unicode_len();
    let mut out = String::new();
    let mut i: usize = 0;
    while i < n
        invariant
            n == s@.len(),
            i <= n,
            out@ == url_segment_text(s@.take(i as int)),
        decreases n - i,
    {
        let c = s.get_char(i);
        proof {
            assert(s@.take(i + 1).drop_last() =~= s@.take(i as int));
        }
        if c == ' ' {
            out.append("%20");
        } else {
            let one = s.substring_char(i, i + 1);
            assert(one@ =~= seq![c]);
            out.append(one);
        }
        i = i + 1;
    }
    assert(s@.take(n as int) =~= s@);
    out
}

/// The state shown after a device's name: ` — on`, ` — off`, or nothing for
/// a device without a switch.
pub open spec fn status_suffix_text(is_on: Option<bool>) -> Seq<char> {
    match is_on {
        Some(true) => " — on"@,
        Some(false) => " — off"@,
        None => seq![],
    }
}

/// The state shown after a device's name.
pub fn status_suffix(is_on: Option<bool>) -> (r: String)
    ensures
        r@ == status_suffix_text(is_on),
{
    match is_on {
        Some(true) => " — on".to_string(),
        Some(false) => " — off".to_string(),
        None => String::new(),
    }
}

/// The request the "Add device" form sends: none without an id; a socket
/// starts off with the value as its power, a thermometer shows the value.
pub fn form_request(id: String, kind: DeviceKind, name: String, value: Option<u32>) -> (r: Option<CreateDevice>)
    ensures
        match r {
            Some(b) => {
                &&& id@.len() > 0
                &&& b.id@ == id@
                &&& b.kind == kind
                &&& b.name@ == name@
                &&& b.is_on == (if kind == DeviceKind::Socket {
                    Some(false)
                } else {
                    None
                })
                &&& b.power_watts == (if kind == DeviceKind::Socket {
                    value
                } else {
                    None
                })
                &&& b.temperature_celsius == (if kind == DeviceKind::Thermometer {
                    value
                } else {
                    None
                })
            },
            None => id@.len() == 0,
        },
{
    if id.as_str().unicode_len() == 0 {
        return None;
    }
    let socket = match kind {
        DeviceKind::Socket => true,
        DeviceKind::Thermometer => false,
    };
    Some(
        CreateDevice {
            id,
            kind,
            name,
            is_on: if socket {
                Some(false)
            } else {
                None
            },
            power_watts: if socket {
                value
            } else {
                None
            },
            temperature_celsius: if socket {
                None
            } else {
                value
            },
        },
    )
}

/// The request the "Add room" form sends: none without an id; a blank name
/// is sent as no name (the room is then named after its id).
pub fn room_form_request(id: String, name: String) -> (r: Option<CreateRoom>)
    ensures
        match r {
            Some(b) => {
                &&& id@.len() > 0
                &&& b.id@ == id@
                &&& b.name == (if name@.len() == 0 {
                    None::<String>
                } else {
                    Some(name)
                })
            },
            None => id@.len() == 0,
        },
{
    if id.as_str().unicode_len() == 0 {
        return None;
    }
    let name = if name.as_str().unicode_len() == 0 {
        None
    } else {
        Some(name)
    };
    Some(CreateRoom { id, name })
}

/// The switch state shown on a device's page: `On`, `Off`, or nothing for
/// a device without a switch.
pub open spec fn switch_status_text(is_on: Option<bool>) -> Seq<char> {
    match is_on {
        Some(true) => "On"@,
        Some(false) => "Off"@,
        None => seq![],
    }
}

/// The switch state shown on a device's page.
pub fn switch_status(is_on: Option<bool>) -> (r: String)
    ensures
        r@ == switch_status_text(is_on),
{
    match is_on {
        Some(true) => "On".to_string(),
        Some(false) => "Off".to_string(),
        None => String::new(),
    }
}

/// Whether a device's page offers the "Turn on" and "Turn off" buttons:
/// only a socket's does.
pub fn shows_switch(kind: DeviceKind) -> (r: bool)
    ensures
        r == (kind == DeviceKind::Socket),
{
    match kind {
        DeviceKind::Socket => true,
        DeviceKind::Thermometer => false,
    }
}

/// The path that switches the device under `device` in the room under
/// `room` on or off.
pub open spec fn switch_path_text(room: Seq<char>, device: Seq<char>, on: bool) -> Seq<char> {
    "/api/rooms/"@ + url_segment_text(room) + "/devices/"@ + url_segment_text(device) + (if on {
        "/turn_on"@
    } else {
        "/turn_off"@
    })
}

/// The path that switches the device under `device` in the room under
/// `room` on or off.
pub fn switch_path(room: &str, device: &str, on: bool) -> (r: String)
    ensures
        r@ == switch_path_text(room@, device@, on),
{
    let mut p = "/api/rooms/".to_string();
    let r = urlencoding(room);
    p.append(r.as_str());
    p.append("/devices/");
    let d = urlencoding(device);
    p.append(d.as_str());
    if on {
        p.append("/turn_on");
    } else {
        p.append("/turn_off");
    }
    p
}

/// The path of the room under `id`, as the room list deletes it (the key
/// is put in as it is).
pub open spec fn room_path_text(id: Seq<char>) -> Seq<char> {
    "/api/rooms/"@ + id
}

/// The path of the room under `id`, as the room list deletes it.
pub fn room_path(id: &str) -> (r: String)
    ensures
        r@ == room_path_text(id@),
{
    let mut p = "/api/rooms/".to_string();
    p.append(id);
    p
}

/// The path listing (and adding to) the devices of the room under `room`.
pub open spec fn devices_path_text(room: Seq<char>) -> Seq<char> {
    "/api/rooms/"@ + url_segment_text(room) + "/devices"@
}

/// The path listing (and adding to) the devices of the room under `room`.
pub fn devices_path(room: &str) -> (r: String)
    ensures
        r@ == devices_path_text(room@),
{
    let mut p = "/api/rooms/".to_string();
    let r = urlencoding(room);
    p.append(r.as_str());
    p.append("/devices");
    p
}

/// The path a device's page reads the device under `device` from.
pub open spec fn device_path_text(room: Seq<char>, device: Seq<char>) -> Seq<char> {
    devices_path_text(room) + "/"@ + url_segment_text(device)
}

/// The path a device's page reads the device under `device` from.
pub fn device_path(room: &str, device: &str) -> (r: String)
    ensures
        r@ == device_path_text(room@, device@),
{
    let mut p = devices_path(room);
    p.append("/");
    let d = urlencoding(device);
    p.append(d.as_str());
    p
}

/// The path the device list deletes the device under `device` with (the
/// device key is put in as it is).
pub open spec fn device_delete_path_text(room: Seq<char>, device: Seq<char>) -> Seq<char> {
    devices_path_text(room) + "/"@ + device
}

/// The path the device list deletes the device under `device` with.
pub fn device_delete_path(room: &str, device: &str) -> (r: String)
    ensures
        r@ == device_delete_path_text(room@, device@),
{
    let mut p = devices_path(room);
    p.append("/");
    p.append(device);
    p
}

/// Which list a page shows.
#[derive(Debug, Clone, Copy, PartialEq, Eq, Structural)]
pub enum Listing {
    Rooms,
    Devices,
}

/// The message a list page shows in place of its items: `Loading…` while
/// the request is out, `Error: <message>` when it failed, `No rooms.` or
/// `No devices.` when there is nothing to list, and none otherwise.
pub open spec fn list_message_text(listing: Listing, state: Option<Result<usize, Seq<char>>>) -> Option<Seq<char>> {
    match state {
        None => Some("Loading\u{2026}"@),
        Some(Err(e)) => Some("Error: "@ + e),
        Some(Ok(n)) => if n == 0 {
            Some(
                match listing {
                    Listing::Rooms => "No rooms."@,
                    Listing::Devices => "No devices."@,
                },
            )
        } else {
            None
        },
    }
}

/// The message a list page shows in place of its items, given how its
/// request stands: not answered yet, failed with a message, or answered
/// with that many items.
pub fn list_message(listing: Listing, state: Option<Result<usize, String>>) -> (r: Option<String>)
    ensures
        match r {
            Some(m) => list_message_text(listing, match state {
                None => None,
                Some(Ok(n)) => Some(Ok(n)),
                Some(Err(e)) => Some(Err(e@)),
            }) == Some(m@),
            None => list_message_text(listing, match state {
                None => None,
                Some(Ok(n)) => Some(Ok(n)),
                Some(Err(e)) => Some(Err(e@)),
            }) is None,
        },
{
    match state {
        None => Some("Loading\u{2026}".to_string()),
        Some(Err(e)) => {
            let mut m = "Error: ".to_string();
            m.append(e.as_str());
            Some(m)
        },
        Some(Ok(n)) => if n == 0 {
            match listing {
                Listing::Rooms => Some("No rooms.".to_string()),
                Listing::Devices => Some("No devices.".to_string()),
            }
        } else {
            None
        },
    }
}

} // verus!
