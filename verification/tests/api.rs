use smart_home::api::{
    create_device, create_room, delete_device, delete_room, demo_home, get_device, get_room,
    list_devices, list_rooms, report, set_socket_state, ApiError, CreateDevice, CreateRoom,
    DeviceKind,
};
use smart_home::keyed::KeyedMap;
use smart_home::ui::{
    device_delete_path, device_path, devices_path, list_message, room_path, Listing,
    form_request, room_form_request, shows_switch, status_suffix, switch_path, switch_status,
    urlencoding,
};
use smart_home::wire::Command;
use smart_home::SmartHome;

fn empty_home() -> SmartHome {
    SmartHome::new("Test Home".to_string(), KeyedMap::new())
}

fn bits(x: f32) -> u32 {
    x.to_bits()
}

fn socket_request(id: &str, name: &str, is_on: Option<bool>, watts: Option<f32>) -> CreateDevice {
    CreateDevice {
        id: id.to_string(),
        kind: DeviceKind::Socket,
        name: name.to_string(),
        is_on,
        power_watts: watts.map(bits),
        temperature_celsius: None,
    }
}

#[test]
fn full_api_workflow() {
    let mut home = empty_home();

    // Rooms list is empty.
    assert!(list_rooms(&home).is_empty());

    // Create a room.
    let created = create_room(
        &mut home,
        CreateRoom {
            id: "Kitchen".to_string(),
            name: Some("Kitchen".to_string()),
        },
    )
    .unwrap();
    assert_eq!(created.id, "Kitchen");
    assert_eq!(created.name, "Kitchen");
    assert_eq!(created.device_count, 0);

    // Fetch the room.
    let got = get_room(&home, "Kitchen").unwrap();
    assert_eq!(got.id, "Kitchen");

    // 404 for a missing room.
    assert_eq!(get_room(&home, "Nope").unwrap_err().status_code(), 404);

    // Conflict on duplicate creation.
    let err = create_room(
        &mut home,
        CreateRoom {
            id: "Kitchen".to_string(),
            name: None,
        },
    )
    .unwrap_err();
    assert_eq!(err.status_code(), 409);

    // Devices list is empty.
    assert!(list_devices(&home, "Kitchen").unwrap().is_empty());

    // Add a socket.
    let socket = create_device(
        &mut home,
        "Kitchen",
        socket_request("kettle", "Kettle", Some(false), Some(1500.0)),
    )
    .unwrap();
    assert_eq!(socket.id, "kettle");
    assert_eq!(socket.kind, DeviceKind::Socket);
    assert_eq!(socket.is_on, Some(false));
    assert_eq!(socket.power_watts, Some(bits(0.0))); // off → 0 W

    // Turn the socket on.
    let (on, command) = set_socket_state(&mut home, "Kitchen", "kettle", true).unwrap();
    assert!(command.is_none());
    assert_eq!(on.is_on, Some(true));
    assert_eq!(on.power_watts, Some(bits(1500.0)));

    // Turn the socket off.
    let (off, _) = set_socket_state(&mut home, "Kitchen", "kettle", false).unwrap();
    assert_eq!(off.is_on, Some(false));
    assert_eq!(off.power_watts, Some(bits(0.0)));

    // Add a thermometer.
    let thermo = create_device(
        &mut home,
        "Kitchen",
        CreateDevice {
            id: "sensor".to_string(),
            kind: DeviceKind::Thermometer,
            name: "Sensor".to_string(),
            is_on: None,
            power_watts: None,
            temperature_celsius: Some(bits(21.5)),
        },
    )
    .unwrap();
    assert_eq!(thermo.kind, DeviceKind::Thermometer);
    assert_eq!(thermo.temperature_celsius, Some(bits(21.5)));

    // turn_on on a thermometer → 400.
    let err = set_socket_state(&mut home, "Kitchen", "sensor", true).unwrap_err();
    assert_eq!(err.status_code(), 400);

    // Invalid power → 400.
    let err = create_device(
        &mut home,
        "Kitchen",
        socket_request("bad", "Bad", Some(true), Some(-5.0)),
    )
    .unwrap_err();
    assert_eq!(err.status_code(), 400);

    // Device information.
    let got = get_device(&home, "Kitchen", "kettle").unwrap();
    assert_eq!(got.id, "kettle");

    // 404 for a device in a missing room.
    assert_eq!(
        get_device(&home, "Nope", "kettle").unwrap_err().status_code(),
        404
    );

    // Devices list now contains 2 items.
    assert_eq!(list_devices(&home, "Kitchen").unwrap().len(), 2);

    // Report contains the room name.
    assert!(report(&home).report.contains("Kitchen"));

    // Delete the device.
    assert!(delete_device(&mut home, "Kitchen", "kettle").is_ok());

    // Repeated deletion → 404.
    assert_eq!(
        delete_device(&mut home, "Kitchen", "kettle")
            .unwrap_err()
            .status_code(),
        404
    );

    // Delete the room.
    assert!(delete_room(&mut home, "Kitchen").is_ok());

    // Rooms list is empty again.
    assert!(list_rooms(&home).is_empty());
}

// ---- further cases ----

#[test]
fn refusal_messages() {
    let mut home = empty_home();
    match create_room(
        &mut home,
        CreateRoom {
            id: "  ".to_string(),
            name: None,
        },
    ) {
        Err(ApiError::BadRequest(m)) => assert_eq!(m, "room id must not be empty"),
        other => panic!("unexpected {other:?}"),
    }
    create_room(
        &mut home,
        CreateRoom {
            id: "Hall".to_string(),
            name: None,
        },
    )
    .unwrap();
    match create_room(
        &mut home,
        CreateRoom {
            id: "Hall".to_string(),
            name: None,
        },
    ) {
        Err(ApiError::Conflict(m)) => assert_eq!(m, "room 'Hall' already exists"),
        other => panic!("unexpected {other:?}"),
    }
    match get_room(&home, "Attic") {
        Err(ApiError::NotFound(m)) => assert_eq!(m, "room 'Attic' not found"),
        other => panic!("unexpected {other:?}"),
    }
    match create_device(&mut home, "Hall", socket_request(" ", "X", None, None)) {
        Err(ApiError::BadRequest(m)) => assert_eq!(m, "device id must not be empty"),
        other => panic!("unexpected {other:?}"),
    }
    match create_device(&mut home, "Hall", socket_request("x", "", None, None)) {
        Err(ApiError::BadRequest(m)) => assert_eq!(m, "device name must not be empty"),
        other => panic!("unexpected {other:?}"),
    }
    match create_device(&mut home, "Hall", socket_request("x", "X", None, Some(-1.0))) {
        Err(ApiError::BadRequest(m)) => assert_eq!(m, "invalid power: Power cannot be negative"),
        other => panic!("unexpected {other:?}"),
    }
    match create_device(&mut home, "Attic", socket_request("x", "X", None, None)) {
        Err(ApiError::NotFound(m)) => assert_eq!(m, "room 'Attic' not found"),
        other => panic!("unexpected {other:?}"),
    }
    create_device(&mut home, "Hall", socket_request("x", "X", None, None)).unwrap();
    match create_device(&mut home, "Hall", socket_request("x", "X", None, None)) {
        Err(ApiError::Conflict(m)) => {
            assert_eq!(m, "device 'x' already exists in room 'Hall'")
        }
        other => panic!("unexpected {other:?}"),
    }
    match get_device(&home, "Hall", "y") {
        Err(ApiError::NotFound(m)) => assert_eq!(m, "device not found: y (in room Hall)"),
        other => panic!("unexpected {other:?}"),
    }
    match delete_device(&mut home, "Hall", "y") {
        Err(ApiError::NotFound(m)) => assert_eq!(m, "device 'y' not found in room 'Hall'"),
        other => panic!("unexpected {other:?}"),
    }
    assert_eq!(ApiError::Conflict("c".to_string()).message(), "c");
}

#[test]
fn defaults_of_a_created_device() {
    let mut home = empty_home();
    create_room(
        &mut home,
        CreateRoom {
            id: "r".to_string(),
            name: Some("Room".to_string()),
        },
    )
    .unwrap();
    let s = create_device(&mut home, "r", socket_request("s", "S", None, None)).unwrap();
    assert_eq!(s.is_on, Some(false));
    assert_eq!(s.power_watts, Some(0));
    let t = create_device(
        &mut home,
        "r",
        CreateDevice {
            id: "t".to_string(),
            kind: DeviceKind::Thermometer,
            name: "T".to_string(),
            is_on: None,
            power_watts: None,
            temperature_celsius: None,
        },
    )
    .unwrap();
    assert_eq!(t.temperature_celsius, Some(bits(20.0)));
    assert_eq!(get_room(&home, "r").unwrap().name, "Room");
    let listed = list_devices(&home, "r").unwrap();
    assert_eq!(listed[0].id, "s");
    assert_eq!(listed[1].id, "t");
}

#[test]
fn demo_home_contents() {
    let home = demo_home();
    assert_eq!(home.name(), "My Smart Home");
    let rooms = list_rooms(&home);
    let ids: Vec<&str> = rooms.iter().map(|r| r.id.as_str()).collect();
    assert_eq!(ids, vec!["Bedroom", "Kitchen", "Living Room"]);
    assert_eq!(rooms[1].device_count, 3);
    let kettle = get_device(&home, "Kitchen", "kettle").unwrap();
    assert_eq!(kettle.power_watts, Some(bits(1500.0)));
    let lamp = get_device(&home, "Living Room", "floor_lamp").unwrap();
    assert_eq!(lamp.is_on, Some(false));
    let sensor = get_device(&home, "Bedroom", "bedroom_thermometer").unwrap();
    assert_eq!(sensor.temperature_celsius, Some(bits(21.0)));
}

#[test]
fn remote_commands_are_handed_back() {
    let mut home = demo_home();
    let (_, command) = set_socket_state(&mut home, "Kitchen", "fridge", false).unwrap();
    assert_eq!(command, None::<Command>);
}

#[test]
fn front_end_helpers() {
    assert_eq!(urlencoding("Living Room"), "Living%20Room");
    assert_eq!(urlencoding("a b c"), "a%20b%20c");
    assert_eq!(status_suffix(Some(true)), " — on");
    assert_eq!(status_suffix(Some(false)), " — off");
    assert_eq!(status_suffix(None), "");
    assert!(form_request(String::new(), DeviceKind::Socket, "n".to_string(), None).is_none());
    let b = form_request(
        "id".to_string(),
        DeviceKind::Socket,
        "n".to_string(),
        Some(bits(5.0)),
    )
    .unwrap();
    assert_eq!(b.is_on, Some(false));
    assert_eq!(b.power_watts, Some(bits(5.0)));
    assert_eq!(b.temperature_celsius, None);
    let t = form_request(
        "id".to_string(),
        DeviceKind::Thermometer,
        "n".to_string(),
        Some(bits(5.0)),
    )
    .unwrap();
    assert_eq!(t.is_on, None);
    assert_eq!(t.power_watts, None);
    assert_eq!(t.temperature_celsius, Some(bits(5.0)));
}

#[test]
fn delete_undoes_create() {
    let mut home = demo_home();
    let before: Vec<String> = list_rooms(&home).into_iter().map(|r| r.id).collect();
    create_room(
        &mut home,
        CreateRoom {
            id: "Attic".to_string(),
            name: None,
        },
    )
    .unwrap();
    assert_eq!(get_room(&home, "Attic").unwrap().name, "Attic");
    delete_room(&mut home, "Attic").unwrap();
    let after: Vec<String> = list_rooms(&home).into_iter().map(|r| r.id).collect();
    assert_eq!(before, after);
    assert!(get_room(&home, "Attic").is_err());

    let devices_before = list_devices(&home, "Kitchen").unwrap().len();
    create_device(&mut home, "Kitchen", socket_request("toaster", "Toaster", Some(true), Some(800.0)))
        .unwrap();
    assert_eq!(
        get_device(&home, "Kitchen", "toaster").unwrap().power_watts,
        Some(bits(800.0))
    );
    delete_device(&mut home, "Kitchen", "toaster").unwrap();
    assert_eq!(list_devices(&home, "Kitchen").unwrap().len(), devices_before);
}

#[test]
fn demo_home_devices_and_listing_order() {
    let home = demo_home();
    assert_eq!(home.room_count(), 3);
    for id in ["Kitchen", "Living Room", "Bedroom"] {
        assert_eq!(home.room(id).unwrap().name(), id);
    }
    assert_eq!(home.room("Bedroom").unwrap().device_count(), 2);
    let lamp = get_device(&home, "Living Room", "floor_lamp").unwrap();
    assert_eq!(lamp.is_on, Some(false));
    assert_eq!(lamp.power_watts, Some(bits(0.0)));
    let kettle = get_device(&home, "Kitchen", "kettle").unwrap();
    assert_eq!(kettle.is_on, Some(true));
    assert_eq!(kettle.power_watts, Some(bits(1500.0)));
    let ids: Vec<String> = list_devices(&home, "Kitchen")
        .unwrap()
        .into_iter()
        .map(|d| d.id)
        .collect();
    assert_eq!(ids, vec!["fridge", "kettle", "kitchen_thermometer"]);
}

#[test]
fn front_end_room_form_and_device_page() {
    assert!(room_form_request(String::new(), "x".to_string()).is_none());
    let r = room_form_request("hall".to_string(), String::new()).unwrap();
    assert_eq!(r.id, "hall");
    assert_eq!(r.name, None);
    let r = room_form_request("hall".to_string(), "Hall".to_string()).unwrap();
    assert_eq!(r.name, Some("Hall".to_string()));
    assert_eq!(switch_status(Some(true)), "On");
    assert_eq!(switch_status(Some(false)), "Off");
    assert_eq!(switch_status(None), "");
    assert!(shows_switch(DeviceKind::Socket));
    assert!(!shows_switch(DeviceKind::Thermometer));
    assert_eq!(
        switch_path("Living Room", "floor lamp", true),
        "/api/rooms/Living%20Room/devices/floor%20lamp/turn_on"
    );
    assert_eq!(
        switch_path("K", "kettle", false),
        "/api/rooms/K/devices/kettle/turn_off"
    );
}

#[test]
fn nan_power_is_refused_and_refused_deletes_change_nothing() {
    let mut home = demo_home();
    match create_device(
        &mut home,
        "Kitchen",
        socket_request("nan", "NaN", Some(true), Some(f32::NAN)),
    ) {
        Err(ApiError::BadRequest(m)) => assert_eq!(m, "invalid power: Power cannot be negative"),
        other => panic!("unexpected {other:?}"),
    }
    let before = home.clone();
    assert_eq!(
        delete_device(&mut home, "Kitchen", "ghost").unwrap_err().status_code(),
        404
    );
    assert_eq!(
        delete_device(&mut home, "Attic", "kettle").unwrap_err().status_code(),
        404
    );
    assert!(home == before);
    assert_eq!(home.name(), "My Smart Home");
}

#[test]
fn front_end_paths_and_list_messages() {
    assert_eq!(room_path("Attic"), "/api/rooms/Attic");
    assert_eq!(devices_path("Living Room"), "/api/rooms/Living%20Room/devices");
    assert_eq!(
        device_path("Living Room", "floor lamp"),
        "/api/rooms/Living%20Room/devices/floor%20lamp"
    );
    assert_eq!(
        device_delete_path("Living Room", "tv"),
        "/api/rooms/Living%20Room/devices/tv"
    );
    assert_eq!(list_message(Listing::Rooms, None), Some("Loading\u{2026}".to_string()));
    assert_eq!(
        list_message(Listing::Devices, Some(Err("timeout".to_string()))),
        Some("Error: timeout".to_string())
    );
    assert_eq!(list_message(Listing::Rooms, Some(Ok(0))), Some("No rooms.".to_string()));
    assert_eq!(list_message(Listing::Devices, Some(Ok(0))), Some("No devices.".to_string()));
    assert_eq!(list_message(Listing::Devices, Some(Ok(2))), None);
}
