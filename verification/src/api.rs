//! The decisions of the REST service: validation of requests, the changes
//! they make to the home, the records they answer with, and the error (with
//! its HTTP status) they are refused with. Transport and serialization stay
//! with the server.

use vstd::prelude::*;

use crate::devices::{Device, DeviceInfo, Socket, Thermometer};
use crate::error::{error_message, SmartHomeError};
use crate::home::room::Room;
use crate::home::smart_home::SmartHome;
use crate::keyed::{ascending, ascending_keys, collected, keys_of, KeyedMap};
use crate::report::Report;
use crate::text::{all_white, is_blank, text_lt};
use crate::types::{is_power_bits, power_error_text, Power, Temperature, TWENTY_BITS};
use crate::wire::Command;

verus! {

/// Room information.
#[derive(Debug, Clone)]
pub struct RoomDto {
    pub id: String,
    pub name: String,
    pub device_count: usize,
}

/// Device kind.
#[derive(Debug, Clone, Copy, PartialEq, Eq, Structural)]
pub enum DeviceKind {
    Socket,
    Thermometer,
}

/// Device information; watts and degrees are bit patterns of the values.
#[derive(Debug, Clone)]
pub struct DeviceDto {
    pub id: String,
    pub kind: DeviceKind,
    pub name: String,
    pub state: String,
    /// Socket only.
    pub is_on: Option<bool>,
    /// Socket only (watts).
    pub power_watts: Option<u32>,
    /// Thermometer only (degrees Celsius).
    pub temperature_celsius: Option<u32>,
}

/// Request to create a room.
#[derive(Debug, Clone)]
pub struct CreateRoom {
    pub id: String,
    pub name: Option<String>,
}

/// Request to create a device in a room.
#[derive(Debug, Clone)]
pub struct CreateDevice {
    pub id: String,
    pub kind: DeviceKind,
    pub name: String,
    /// Socket only.
    pub is_on: Option<bool>,
    /// Socket only (watts, not negative).
    pub power_watts: Option<u32>,
    /// Thermometer only (degrees Celsius).
    pub temperature_celsius: Option<u32>,
}

/// The report of the whole home.
#[derive(Debug, Clone)]
pub struct ReportDto {
    pub report: String,
}

/// Why a request was refused.
#[derive(Debug, Clone)]
pub enum ApiError {
    /// Room or device not found.
    NotFound(String),
    /// Bad request (e.g. negative power).
    BadRequest(String),
    /// Conflict (a room or device with this key already exists).
    Conflict(String),
}

/// The HTTP status of a refusal.
pub open spec fn status_of(e: ApiError) -> u16 {
    match e {
        ApiError::NotFound(_) => 404,
        ApiError::BadRequest(_) => 400,
        ApiError::Conflict(_) => 409,
    }
}

/// The message of a refusal.
pub open spec fn api_message(e: ApiError) -> Seq<char> {
    match e {
        ApiError::NotFound(m) => m@,
        ApiError::BadRequest(m) => m@,
        ApiError::Conflict(m) => m@,
    }
}

impl ApiError {
    /// The HTTP status code: 404, 400 or 409.
    pub fn status_code(&self) -> (r: u16)
        ensures
            r == status_of(*self),
    {
        match self {
            ApiError::NotFound(_) => 404,
            ApiError::BadRequest(_) => 400,
            ApiError::Conflict(_) => 409,
        }
    }

    /// The message given with the status.
    pub fn message(&self) -> (r: String)
        ensures
            r@ == api_message(*self),
    {
        match self {
            ApiError::NotFound(m) => m.clone(),
            ApiError::BadRequest(m) => m.clone(),
            ApiError::Conflict(m) => m.clone(),
        }
    }
}

/// A missing room or device is answered 404 with the error's message.
pub fn not_found(err: SmartHomeError) -> (r: ApiError)
    ensures
        is_not_found(r, error_message(err)),
{
    ApiError::NotFound(err.message())
}

impl From<SmartHomeError> for ApiError {
    /// Same as [`not_found`].
    fn from(err: SmartHomeError) -> (r: ApiError) {
        not_found(err)
    }
}

impl vstd::std_specs::convert::FromSpecImpl<SmartHomeError> for ApiError {
    /// The message of the result is a `String` built at run time, so no spec
    /// value stands for it: callers use [`not_found`], which states it.
    open spec fn obeys_from_spec() -> bool {
        false
    }

    open spec fn from_spec(err: SmartHomeError) -> ApiError {
        ApiError::NotFound(arbitrary())
    }
}

/// `e` is a 404 with message `m`.
pub open spec fn is_not_found(e: ApiError, m: Seq<char>) -> bool {
    e matches ApiError::NotFound(x) && x@ == m
}

/// `e` is a 400 with message `m`.
pub open spec fn is_bad_request(e: ApiError, m: Seq<char>) -> bool {
    e matches ApiError::BadRequest(x) && x@ == m
}

/// `e` is a 409 with message `m`.
pub open spec fn is_conflict(e: ApiError, m: Seq<char>) -> bool {
    e matches ApiError::Conflict(x) && x@ == m
}

/// `dto` describes the room `room` under key `id`.
pub open spec fn room_dto_of(dto: RoomDto, id: Seq<char>, room: Room) -> bool {
    &&& dto.id@ == id
    &&& dto.name@ == room.name_view()
    &&& dto.device_count == room.devices_view().len()
}

/// `dto` describes the device `device` under key `id`.
pub open spec fn device_dto_of(dto: DeviceDto, id: Seq<char>, device: Device) -> bool {
    &&& dto.id@ == id
    &&& dto.name@ == device.device_name()
    &&& device.is_state_text(dto.state@)
    &&& match device {
        Device::Socket(s) => {
            &&& dto.kind == DeviceKind::Socket
            &&& dto.is_on == Some(s.on_view())
            &&& dto.power_watts == Some(s.power_view())
            &&& dto.temperature_celsius is None
        },
        Device::Thermometer(t) => {
            &&& dto.kind == DeviceKind::Thermometer
            &&& dto.is_on is None
            &&& dto.power_watts is None
            &&& dto.temperature_celsius matches Some(c) && t.may_show(c)
        },
    }
}

/// `room '<id>' not found`.
pub open spec fn room_missing_text(id: Seq<char>) -> Seq<char> {
    "room '"@ + id + "' not found"@
}

fn room_missing(id: &str) -> (r: ApiError)
    ensures
        r matches ApiError::NotFound(m) && m@ == room_missing_text(id@),
{
    let mut m = "room '".to_string();
    m.append(id);
    m.append("' not found");
    ApiError::NotFound(m)
}

/// Builds a record of the room `room` under key `id`.
pub fn room_to_dto(id: &str, room: &Room) -> (r: RoomDto)
    requires
        room.wf(),
    ensures
        room_dto_of(r, id@, *room),
{
    RoomDto { id: id.to_string(), name: room.name().to_string(), device_count: room.device_count() }
}

/// Builds a record of the device `device` under key `id`.
pub fn device_to_dto(id: &str, device: &Device) -> (r: DeviceDto)
    ensures
        device_dto_of(r, id@, *device),
{
    let name = device.name().to_string();
    let state = device.state();
    match device {
        Device::Socket(s) => DeviceDto {
            id: id.to_string(),
            kind: DeviceKind::Socket,
            name,
            state,
            is_on: Some(s.is_on()),
            power_watts: Some(s.power().watts()),
            temperature_celsius: None,
        },
        Device::Thermometer(t) => DeviceDto {
            id: id.to_string(),
            kind: DeviceKind::Thermometer,
            name,
            state,
            is_on: None,
            power_watts: None,
            temperature_celsius: Some(t.temperature().as_celsius()),
        },
    }
}

/// The device a creation request describes, if its power is valid: a socket
/// (off and zero watts unless given) or a thermometer (20 degrees unless given).
pub open spec fn requested_device(body: CreateDevice, d: Device) -> bool {
    match body.kind {
        DeviceKind::Socket => d matches Device::Socket(s) && {
            &&& s.name_view() == body.name@
            &&& !s.remote_view()
            &&& s.on_view() == (match body.is_on {
                Some(b) => b,
                None => false,
            })
            &&& s.rated_view() == (match body.power_watts {
                Some(w) => w,
                None => 0u32,
            })
        },
        DeviceKind::Thermometer => d matches Device::Thermometer(t) && {
            &&& t.name_view() == body.name@
            &&& !t.udp_view()
            &&& t.base_view() == (match body.temperature_celsius {
                Some(c) => c,
                None => TWENTY_BITS,
            })
        },
    }
}

/// The requested power is negative or NaN.
pub open spec fn bad_power(body: CreateDevice) -> bool {
    body.kind == DeviceKind::Socket && (body.power_watts matches Some(w) && !is_power_bits(w))
}

/// Builds the device a creation request describes; a negative or NaN power is refused.
pub fn build_device(body: &CreateDevice) -> (r: Result<Device, ApiError>)
    ensures
        match r {
            Ok(d) => !bad_power(*body) && requested_device(*body, d),
            Err(e) => bad_power(*body) && is_bad_request(e, "invalid power: "@
                + power_error_text()),
        },
{
    match body.kind {
        DeviceKind::Socket => {
            let is_on = match body.is_on {
                Some(b) => b,
                None => false,
            };
            let watts = match body.power_watts {
                Some(w) => w,
                None => 0,
            };
            match Power::new(watts) {
                Ok(power) => Ok(Device::Socket(Socket::new(body.name.clone(), is_on, power))),
                Err(e) => {
                    let mut m = "invalid power: ".to_string();
                    m.append(e.as_str());
                    Err(ApiError::BadRequest(m))
                },
            }
        },
        DeviceKind::Thermometer => {
            let celsius = match body.temperature_celsius {
                Some(c) => c,
                None => TWENTY_BITS,
            };
            Ok(Device::Thermometer(Thermometer::new(body.name.clone(), Temperature::celsius(celsius))))
        },
    }
}

/// Records of all rooms, in ascending key order.
pub fn list_rooms(home: &SmartHome) -> (r: Vec<RoomDto>)
    requires
        home.wf(),
    ensures
        r@.len() == home.rooms_view().len(),
        forall|i: int|
            0 <= i < r@.len() ==> room_dto_of(
                #[trigger] r@[i],
                ascending_keys(home.rooms_view())[i],
                home.rooms_view()[ascending_keys(home.rooms_view())[i]],
            ),
        forall|i: int, j: int| 0 <= i < j < r@.len() ==> text_lt(#[trigger] r@[i].id@, #[trigger] r@[j].id@),
{
    let rooms = home.rooms();
    let ghost keys = ascending_keys(home.rooms_view());
    let mut out: Vec<RoomDto> = Vec::new();
    let n = rooms.len();
    let mut i: usize = 0;
    while i < n
        invariant
            n == rooms@.len(),
            i <= n,
            keys_of(rooms@) == keys,
            forall|j: int|
                0 <= j < n ==> home.rooms_view().contains_key(#[trigger] rooms@[j].0@)
                    && home.rooms_view()[rooms@[j].0@] == rooms@[j].1 && rooms@[j].1.wf(),
            ascending(keys),
            out@.len() == i,
            forall|j: int|
                0 <= j < i ==> room_dto_of(#[trigger] out@[j], keys[j], home.rooms_view()[keys[j]]),
        decreases n - i,
    {
        let pair = &rooms[i];
        proof {
            assert(keys[i as int] == rooms@[i as int].0@);
            assert(home.rooms_view().contains_key(rooms@[i as int].0@));
        }
        out.push(room_to_dto(pair.0.as_str(), &pair.1));
        i = i + 1;
    }
    assert forall|a: int, b: int| 0 <= a < b < out@.len() implies text_lt(
        #[trigger] out@[a].id@,
        #[trigger] out@[b].id@,
    ) by {
        assert(room_dto_of(out@[a], keys[a], home.rooms_view()[keys[a]]));
        assert(room_dto_of(out@[b], keys[b], home.rooms_view()[keys[b]]));
    }
    out
}

/// The home with the rooms of `old` plus an empty room named `name` under `id`.
pub open spec fn with_new_room(old: SmartHome, new: SmartHome, id: Seq<char>, name: Seq<char>) -> bool {
    &&& new.name_view() == old.name_view()
    &&& new.rooms_view().dom() == old.rooms_view().dom().insert(id)
    &&& new.rooms_view()[id].name_view() == name
    &&& new.rooms_view()[id].devices_view() == Map::<Seq<char>, Device>::empty()
    &&& forall|k: Seq<char>|
        k != id && #[trigger] old.rooms_view().contains_key(k) ==> new.rooms_view()[k]
            == old.rooms_view()[k]
}

/// Creates an empty room under `body.id`, named `body.name` or else its id.
/// A blank id is refused (400), and so is an id already in use (409).
pub fn create_room(home: &mut SmartHome, body: CreateRoom) -> (r: Result<RoomDto, ApiError>)
    requires
        old(home).wf(),
    ensures
        final(home).wf(),
        match r {
            Ok(dto) => {
                let name = match body.name {
                    Some(n) => n@,
                    None => body.id@,
                };
                &&& !all_white(body.id@)
                &&& !old(home).rooms_view().contains_key(body.id@)
                &&& with_new_room(*old(home), *final(home), body.id@, name)
                &&& dto.id@ == body.id@
                &&& dto.name@ == name
                &&& dto.device_count == 0
            },
            Err(ApiError::BadRequest(m)) => {
                &&& all_white(body.id@)
                &&& m@ == "room id must not be empty"@
                &&& *final(home) == *old(home)
            },
            Err(ApiError::Conflict(m)) => {
                &&& !all_white(body.id@)
                &&& old(home).rooms_view().contains_key(body.id@)
                &&& m@ == "room '"@ + body.id@ + "' already exists"@
                &&& *final(home) == *old(home)
            },
            Err(ApiError::NotFound(_)) => false,
        },
{
    if is_blank(body.id.as_str()) {
        return Err(ApiError::BadRequest("room id must not be empty".to_string()));
    }
    let name = match body.name {
        Some(n) => n,
        None => body.id.clone(),
    };
    let room = Room::new(name, KeyedMap::new());
    let dto = room_to_dto(body.id.as_str(), &room);
    proof {
        assert(room.devices_view() =~= Map::<Seq<char>, Device>::empty());
    }
    if home.room(body.id.as_str()).is_some() {
        let mut m = "room '".to_string();
        m.append(body.id.as_str());
        m.append("' already exists");
        return Err(ApiError::Conflict(m));
    }
    home.insert_room(body.id, room);
    Ok(dto)
}

/// The record of the room under `room_id`; 404 if there is none.
pub fn get_room(home: &SmartHome, room_id: &str) -> (r: Result<RoomDto, ApiError>)
    requires
        home.wf(),
    ensures
        match r {
            Ok(dto) => home.rooms_view().contains_key(room_id@) && room_dto_of(
                dto,
                room_id@,
                home.rooms_view()[room_id@],
            ),
            Err(e) => !home.rooms_view().contains_key(room_id@) && is_not_found(e, room_missing_text(room_id@)),
        },
{
    match home.room(room_id) {
        Some(room) => Ok(room_to_dto(room_id, room)),
        None => Err(room_missing(room_id)),
    }
}

/// Removes the room under `room_id`; 404 if there is none.
pub fn delete_room(home: &mut SmartHome, room_id: &str) -> (r: Result<(), ApiError>)
    requires
        old(home).wf(),
    ensures
        final(home).wf(),
        final(home).name_view() == old(home).name_view(),
        final(home).rooms_view() == old(home).rooms_view().remove(room_id@),
        match r {
            Ok(_) => old(home).rooms_view().contains_key(room_id@),
            Err(e) => !old(home).rooms_view().contains_key(room_id@) && is_not_found(e, room_missing_text(room_id@)),
        },
{
    match home.remove_room(room_id) {
        Some(_) => Ok(()),
        None => Err(room_missing(room_id)),
    }
}

/// Records of the devices of the room under `room_id`, in ascending key
/// order; 404 if there is no such room.
pub fn list_devices(home: &SmartHome, room_id: &str) -> (r: Result<Vec<DeviceDto>, ApiError>)
    requires
        home.wf(),
    ensures
        match r {
            Ok(list) => {
                let devs = home.rooms_view()[room_id@].devices_view();
                &&& home.rooms_view().contains_key(room_id@)
                &&& list@.len() == devs.len()
                &&& forall|i: int|
                    0 <= i < list@.len() ==> device_dto_of(
                        #[trigger] list@[i],
                        ascending_keys(devs)[i],
                        devs[ascending_keys(devs)[i]],
                    )
                &&& forall|i: int, j: int|
                    0 <= i < j < list@.len() ==> text_lt(#[trigger] list@[i].id@, #[trigger] list@[j].id@)
            },
            Err(e) => !home.rooms_view().contains_key(room_id@) && is_not_found(e, room_missing_text(room_id@)),
        },
{
    let room = match home.room(room_id) {
        Some(room) => room,
        None => return Err(room_missing(room_id)),
    };
    let devices = room.devices();
    let ghost devs = room.devices_view();
    let ghost keys = ascending_keys(devs);
    let mut out: Vec<DeviceDto> = Vec::new();
    let n = devices.len();
    let mut i: usize = 0;
    while i < n
        invariant
            n == devices@.len(),
            i <= n,
            keys_of(devices@) == keys,
            forall|j: int|
                0 <= j < n ==> devs.contains_key(#[trigger] devices@[j].0@) && devs[devices@[j].0@]
                    == devices@[j].1,
            ascending(keys),
            out@.len() == i,
            forall|j: int| 0 <= j < i ==> device_dto_of(#[trigger] out@[j], keys[j], devs[keys[j]]),
        decreases n - i,
    {
        let pair = &devices[i];
        proof {
            assert(keys[i as int] == devices@[i as int].0@);
        }
        out.push(device_to_dto(pair.0.as_str(), &pair.1));
        i = i + 1;
    }
    assert forall|a: int, b: int| 0 <= a < b < out@.len() implies text_lt(
        #[trigger] out@[a].id@,
        #[trigger] out@[b].id@,
    ) by {
        assert(device_dto_of(out@[a], keys[a], devs[keys[a]]));
        assert(device_dto_of(out@[b], keys[b], devs[keys[b]]));
    }
    Ok(out)
}

/// The home with the devices of `old` plus `device` under `id` in room `room_id`.
pub open spec fn with_new_device(
    old: SmartHome,
    new: SmartHome,
    room_id: Seq<char>,
    id: Seq<char>,
    device: Device,
) -> bool {
    &&& new.name_view() == old.name_view()
    &&& new.rooms_view().dom() == old.rooms_view().dom()
    &&& new.rooms_view()[room_id].name_view() == old.rooms_view()[room_id].name_view()
    &&& new.rooms_view()[room_id].devices_view() == old.rooms_view()[room_id].devices_view().insert(id, device)
    &&& forall|k: Seq<char>|
        k != room_id && #[trigger] old.rooms_view().contains_key(k) ==> new.rooms_view()[k]
            == old.rooms_view()[k]
}

/// Adds the device a request describes to the room under `room_id`. Refused,
/// in this order: a blank id or name (400), a negative or NaN power (400), a missing
/// room (404), an id already in use in the room (409).
pub fn create_device(home: &mut SmartHome, room_id: &str, body: CreateDevice) -> (r: Result<
    DeviceDto,
    ApiError,
>)
    requires
        old(home).wf(),
    ensures
        final(home).wf(),
        match r {
            Ok(dto) => {
                &&& !all_white(body.id@)
                &&& !all_white(body.name@)
                &&& !bad_power(body)
                &&& old(home).rooms_view().contains_key(room_id@)
                &&& !old(home).rooms_view()[room_id@].devices_view().contains_key(body.id@)
                &&& exists|d: Device|
                    requested_device(body, d) && with_new_device(*old(home), *final(home), room_id@, body.id@, d)
                        && device_dto_of(dto, body.id@, d)
            },
            Err(e) => *final(home) == *old(home) && if all_white(body.id@) {
                is_bad_request(e, "device id must not be empty"@)
            } else if all_white(body.name@) {
                is_bad_request(e, "device name must not be empty"@)
            } else if bad_power(body) {
                is_bad_request(e, "invalid power: "@ + power_error_text())
            } else if !old(home).rooms_view().contains_key(room_id@) {
                is_not_found(e, room_missing_text(room_id@))
            } else {
                &&& old(home).rooms_view()[room_id@].devices_view().contains_key(body.id@)
                &&& is_conflict(e, "device '"@ + body.id@ + "' already exists in room '"@ + room_id@ + "'"@)
            },
        },
{
    if is_blank(body.id.as_str()) {
        return Err(ApiError::BadRequest("device id must not be empty".to_string()));
    }
    if is_blank(body.name.as_str()) {
        return Err(ApiError::BadRequest("device name must not be empty".to_string()));
    }
    let device = match build_device(&body) {
        Ok(d) => d,
        Err(e) => return Err(e),
    };
    let dto = device_to_dto(body.id.as_str(), &device);
    let ghost d = device;
    let ghost before = *home;
    let found = match home.room(room_id) {
        Some(room) => Some(room.device(body.id.as_str()).is_some()),
        None => None,
    };
    match found {
        None => Err(room_missing(room_id)),
        Some(true) => {
            let mut m = "device '".to_string();
            m.append(body.id.as_str());
            m.append("' already exists in room '");
            m.append(room_id);
            m.append("'");
            Err(ApiError::Conflict(m))
        },
        Some(false) => {
            match home.room_mut(room_id) {
                Some(room) => {
                    room.insert_device(body.id.clone(), device);
                },
                None => {},
            }
            proof {
                assert(home.name_view() == before.name_view());
                assert(home.rooms_view().dom() =~= before.rooms_view().dom());
                assert(home.rooms_view()[room_id@].name_view() == before.rooms_view()[room_id@].name_view());
                assert(home.rooms_view()[room_id@].devices_view() == before.rooms_view()[room_id@].devices_view().insert(body.id@, d));
                assert(with_new_device(before, *home, room_id@, body.id@, d));
            }
            Ok(dto)
        },
    }
}

/// The record of the device under `device_id` in the room under `room_id`;
/// 404 with the lookup's message if either is missing.
pub fn get_device(home: &SmartHome, room_id: &str, device_id: &str) -> (r: Result<DeviceDto, ApiError>)
    requires
        home.wf(),
    ensures
        match r {
            Ok(dto) => {
                &&& home.rooms_view().contains_key(room_id@)
                &&& home.rooms_view()[room_id@].devices_view().contains_key(device_id@)
                &&& device_dto_of(dto, device_id@, home.rooms_view()[room_id@].devices_view()[device_id@])
            },
            Err(e) => if !home.rooms_view().contains_key(room_id@) {
                is_not_found(e, "room not found: "@ + room_id@)
            } else {
                &&& !home.rooms_view()[room_id@].devices_view().contains_key(device_id@)
                &&& is_not_found(e, "device not found: "@ + device_id@ + " (in room "@ + room_id@ + ")"@)
            },
        },
{
    match home.device(room_id, device_id) {
        Ok(d) => Ok(device_to_dto(device_id, d)),
        Err(e) => Err(not_found(e)),
    }
}

/// Removes the device under `device_id` from the room under `room_id`; 404
/// if the room or the device is missing.
pub fn delete_device(home: &mut SmartHome, room_id: &str, device_id: &str) -> (r: Result<(), ApiError>)
    requires
        old(home).wf(),
    ensures
        final(home).wf(),
        match r {
            Ok(_) => {
                &&& old(home).rooms_view().contains_key(room_id@)
                &&& old(home).rooms_view()[room_id@].devices_view().contains_key(device_id@)
                &&& final(home).name_view() == old(home).name_view()
                &&& final(home).rooms_view().dom() == old(home).rooms_view().dom()
                &&& final(home).rooms_view()[room_id@].name_view() == old(home).rooms_view()[room_id@].name_view()
                &&& final(home).rooms_view()[room_id@].devices_view()
                    == old(home).rooms_view()[room_id@].devices_view().remove(device_id@)
                &&& forall|k: Seq<char>|
                    k != room_id@ && #[trigger] old(home).rooms_view().contains_key(k)
                        ==> final(home).rooms_view()[k] == old(home).rooms_view()[k]
            },
            Err(e) => {
                &&& *final(home) == *old(home)
                &&& if !old(home).rooms_view().contains_key(room_id@) {
                    is_not_found(e, room_missing_text(room_id@))
                } else {
                    &&& !old(home).rooms_view()[room_id@].devices_view().contains_key(device_id@)
                    &&& is_not_found(e, "device '"@ + device_id@ + "' not found in room '"@ + room_id@ + "'"@)
                }
            },
        },
{
    let present = match home.room(room_id) {
        None => return Err(room_missing(room_id)),
        Some(room) => room.device(device_id).is_some(),
    };
    if !present {
        let mut m = "device '".to_string();
        m.append(device_id);
        m.append("' not found in room '");
        m.append(room_id);
        m.append("'");
        return Err(ApiError::NotFound(m));
    }
    match home.room_mut(room_id) {
        Some(room) => {
            room.remove_device(device_id);
        },
        None => {},
    }
    Ok(())
}

/// Switches the socket under `device_id` in the room under `room_id` on or
/// off, and gives its record afterwards together with the command a remote
/// socket still has to be sent. Refused: a missing room or device (404 with
/// the lookup's message), a thermometer (400).
pub fn set_socket_state(home: &mut SmartHome, room_id: &str, device_id: &str, on: bool) -> (r: Result<
    (DeviceDto, Option<Command>),
    ApiError,
>)
    requires
        old(home).wf(),
    ensures
        final(home).wf(),
        final(home).rooms_view().dom() == old(home).rooms_view().dom(),
        match r {
            Ok((dto, command)) => {
                let before = old(home).rooms_view()[room_id@].devices_view()[device_id@];
                let after = final(home).rooms_view()[room_id@].devices_view()[device_id@];
                &&& old(home).rooms_view().contains_key(room_id@)
                &&& old(home).rooms_view()[room_id@].devices_view().contains_key(device_id@)
                &&& final(home).name_view() == old(home).name_view()
                &&& final(home).rooms_view()[room_id@].name_view() == old(home).rooms_view()[room_id@].name_view()
                &&& final(home).rooms_view()[room_id@].devices_view()
                    == old(home).rooms_view()[room_id@].devices_view().insert(device_id@, after)
                &&& forall|k: Seq<char>|
                    k != room_id@ && #[trigger] old(home).rooms_view().contains_key(k)
                        ==> final(home).rooms_view()[k] == old(home).rooms_view()[k]
                &&& before matches Device::Socket(s0) && after matches Device::Socket(s1) && {
                    &&& s1.name_view() == s0.name_view()
                    &&& s1.rated_view() == s0.rated_view()
                    &&& s1.remote_view() == s0.remote_view()
                    &&& (!s0.remote_view() ==> s1.on_view() == on && command is None)
                    &&& (s0.remote_view() ==> s1 == s0 && command == Some(
                        if on {
                            Command::SetOn
                        } else {
                            Command::SetOff
                        },
                    ))
                }
                &&& device_dto_of(dto, device_id@, after)
            },
            Err(e) => {
                &&& *final(home) == *old(home)
                &&& if !old(home).rooms_view().contains_key(room_id@) {
                    is_not_found(e, "room not found: "@ + room_id@)
                } else if !old(home).rooms_view()[room_id@].devices_view().contains_key(device_id@) {
                    is_not_found(e, "device not found: "@ + device_id@ + " (in room "@ + room_id@ + ")"@)
                } else {
                    &&& old(home).rooms_view()[room_id@].devices_view()[device_id@] is Thermometer
                    &&& is_bad_request(e, "device '"@ + device_id@ + "' is a thermometer, not a socket"@)
                }
            },
        },
{
    let kind = match home.device(room_id, device_id) {
        Ok(Device::Socket(_)) => DeviceKind::Socket,
        Ok(Device::Thermometer(_)) => DeviceKind::Thermometer,
        Err(e) => return Err(not_found(e)),
    };
    if kind == DeviceKind::Thermometer {
        let mut m = "device '".to_string();
        m.append(device_id);
        m.append("' is a thermometer, not a socket");
        return Err(ApiError::BadRequest(m));
    }
    let command = match home.device_mut(room_id, device_id) {
        Ok(Device::Socket(socket)) => {
            if on {
                socket.turn_on()
            } else {
                socket.turn_off()
            }
        },
        _ => None,
    };
    match home.device(room_id, device_id) {
        Ok(d) => Ok((device_to_dto(device_id, d), command)),
        Err(e) => Err(not_found(e)),
    }
}

/// The report of the whole home.
pub fn report(home: &SmartHome) -> (r: ReportDto)
    requires
        home.wf(),
    ensures
        home.is_report_text(r.report@),
{
    ReportDto { report: home.report() }
}

/// The map of `items`, a later item replacing an earlier one with the same key.
pub fn devices(items: Vec<(String, Device)>) -> (r: KeyedMap<Device>)
    ensures
        r.wf(),
        r@ == collected(items@),
{
    KeyedMap::from_pairs(items)
}

/// `d` is a local socket named `name`, switched `on`, rated `watts` (a bit pattern).
pub open spec fn is_local_socket(d: Device, name: Seq<char>, on: bool, watts: u32) -> bool {
    &&& d matches Device::Socket(s)
    &&& d->Socket_0.name_view() == name
    &&& d->Socket_0.on_view() == on
    &&& d->Socket_0.rated_view() == watts
    &&& !d->Socket_0.remote_view()
}

/// `d` is a local thermometer named `name` reading `celsius` (a bit pattern).
pub open spec fn is_local_thermometer(d: Device, name: Seq<char>, celsius: u32) -> bool {
    &&& d matches Device::Thermometer(t)
    &&& d->Thermometer_0.name_view() == name
    &&& d->Thermometer_0.base_view() == celsius
    &&& !d->Thermometer_0.udp_view()
}

/// A socket named `name` with the given state and rated power (the bit
/// pattern of a number that is not negative).
fn demo_socket(name: &str, is_on: bool, watts: u32) -> (r: Device)
    requires
        is_power_bits(watts),
    ensures
        is_local_socket(r, name@, is_on, watts),
{
    Device::Socket(Socket::new(name.to_string(), is_on, Power::new_unchecked(watts)))
}

/// A thermometer named `name` showing the given temperature.
fn demo_thermometer(name: &str, celsius: u32) -> (r: Device)
    ensures
        is_local_thermometer(r, name@, celsius),
{
    Device::Thermometer(Thermometer::new(name.to_string(), Temperature::celsius(celsius)))
}

/// The device under `key` in the room under `room` of `h`.
pub open spec fn device_at(h: SmartHome, room: Seq<char>, key: Seq<char>) -> Device {
    h.rooms_view()[room].devices_view()[key]
}

/// The demonstration home "My Smart Home": a kitchen (thermometer at 22.5
/// degrees, kettle on at 1500 W, fridge on at 200 W), a living room
/// (thermometer at 24 degrees, TV on at 120 W, floor lamp off at 60 W) and a
/// bedroom (thermometer at 21 degrees, humidifier on at 30 W).
pub fn demo_home() -> (r: SmartHome)
    ensures
        r.wf(),
        r.name_view() == "My Smart Home"@,
        r.rooms_view().dom() == set!["Kitchen"@, "Living Room"@, "Bedroom"@],
        r.rooms_view()["Kitchen"@].devices_view().dom() == set![
            "kitchen_thermometer"@,
            "kettle"@,
            "fridge"@,
        ],
        r.rooms_view()["Living Room"@].devices_view().dom() == set![
            "living_thermometer"@,
            "tv"@,
            "floor_lamp"@,
        ],
        r.rooms_view()["Bedroom"@].devices_view().dom() == set![
            "bedroom_thermometer"@,
            "humidifier"@,
        ],
        r.rooms_view()["Kitchen"@].name_view() == "Kitchen"@,
        r.rooms_view()["Living Room"@].name_view() == "Living Room"@,
        r.rooms_view()["Bedroom"@].name_view() == "Bedroom"@,
        is_local_thermometer(
            device_at(r, "Kitchen"@, "kitchen_thermometer"@),
            "Kitchen thermometer"@,
            0x41b4_0000,
        ),
        is_local_socket(device_at(r, "Kitchen"@, "kettle"@), "Kettle"@, true, 0x44bb_8000),
        is_local_socket(device_at(r, "Kitchen"@, "fridge"@), "Fridge"@, true, 0x4348_0000),
        is_local_thermometer(
            device_at(r, "Living Room"@, "living_thermometer"@),
            "Living room thermometer"@,
            0x41c0_0000,
        ),
        is_local_socket(device_at(r, "Living Room"@, "tv"@), "TV"@, true, 0x42f0_0000),
        is_local_socket(device_at(r, "Living Room"@, "floor_lamp"@), "Floor lamp"@, false, 0x4270_0000),
        is_local_thermometer(
            device_at(r, "Bedroom"@, "bedroom_thermometer"@),
            "Bedroom thermometer"@,
            0x41a8_0000,
        ),
        is_local_socket(device_at(r, "Bedroom"@, "humidifier"@), "Humidifier"@, true, 0x41f0_0000),
{
    proof {
        reveal_strlit("kitchen_thermometer");
        reveal_strlit("kettle");
        reveal_strlit("fridge");
        reveal_strlit("living_thermometer");
        reveal_strlit("tv");
        reveal_strlit("floor_lamp");
        reveal_strlit("bedroom_thermometer");
        reveal_strlit("humidifier");
        assert("kitchen_thermometer"@.len() != "kettle"@.len());
        assert("kitchen_thermometer"@.len() != "fridge"@.len());
        assert("kettle"@[0] != "fridge"@[0]);
        assert("living_thermometer"@.len() != "tv"@.len());
        assert("living_thermometer"@.len() != "floor_lamp"@.len());
        assert("tv"@.len() != "floor_lamp"@.len());
        assert("bedroom_thermometer"@.len() != "humidifier"@.len());
    }
    let mut kitchen: KeyedMap<Device> = KeyedMap::new();
    kitchen.insert(
        "kitchen_thermometer".to_string(),
        demo_thermometer("Kitchen thermometer", 0x41b4_0000),
    );
    kitchen.insert("kettle".to_string(), demo_socket("Kettle", true, 0x44bb_8000));
    kitchen.insert("fridge".to_string(), demo_socket("Fridge", true, 0x4348_0000));
    let mut living: KeyedMap<Device> = KeyedMap::new();
    living.insert(
        "living_thermometer".to_string(),
        demo_thermometer("Living room thermometer", 0x41c0_0000),
    );
    living.insert("tv".to_string(), demo_socket("TV", true, 0x42f0_0000));
    living.insert("floor_lamp".to_string(), demo_socket("Floor lamp", false, 0x4270_0000));
    let mut bedroom: KeyedMap<Device> = KeyedMap::new();
    bedroom.insert(
        "bedroom_thermometer".to_string(),
        demo_thermometer("Bedroom thermometer", 0x41a8_0000),
    );
    bedroom.insert("humidifier".to_string(), demo_socket("Humidifier", true, 0x41f0_0000));
    let kitchen_room = Room::new("Kitchen".to_string(), kitchen);
    let living_room = Room::new("Living Room".to_string(), living);
    let bedroom_room = Room::new("Bedroom".to_string(), bedroom);
    let mut rooms: KeyedMap<Room> = KeyedMap::new();
    rooms.insert("Kitchen".to_string(), kitchen_room);
    rooms.insert("Living Room".to_string(), living_room);
    rooms.insert("Bedroom".to_string(), bedroom_room);
    proof {
        reveal_strlit("Kitchen");
        reveal_strlit("Living Room");
        reveal_strlit("Bedroom");
        assert("Kitchen"@.len() != "Living Room"@.len());
        assert("Kitchen"@[0] != "Bedroom"@[0]);
        assert("Living Room"@.len() != "Bedroom"@.len());
        assert(rooms@["Kitchen"@] == kitchen_room);
        assert(rooms@["Living Room"@] == living_room);
        assert(rooms@["Bedroom"@] == bedroom_room);
        assert(rooms@.dom() =~= set!["Kitchen"@, "Living Room"@, "Bedroom"@]);
        assert(kitchen_room.devices_view().dom() =~= set![
            "kitchen_thermometer"@,
            "kettle"@,
            "fridge"@,
        ]);
        assert(living_room.devices_view().dom() =~= set![
            "living_thermometer"@,
            "tv"@,
            "floor_lamp"@,
        ]);
        assert(bedroom_room.devices_view().dom() =~= set![
            "bedroom_thermometer"@,
            "humidifier"@,
        ]);
    }
    SmartHome::new("My Smart Home".to_string(), rooms)
}

} // verus!
