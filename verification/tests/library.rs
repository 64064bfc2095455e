use std::sync::{Arc, Mutex};

use smart_home::wire::{decode_temperature_celsius, encode_temperature_celsius, Command};
use smart_home::api::devices;
use smart_home::keyed::KeyedMap;
use smart_home::{
    Device, DeviceInfo, HomeBuilder, Power, Report, Room, SmartHome, SmartHomeError, Socket,
    Temperature, Thermometer,
};

fn power(watts: f32) -> Power {
    Power::new(watts.to_bits()).unwrap()
}

fn celsius(value: f32) -> Temperature {
    Temperature::celsius(value.to_bits())
}

fn watts_of(socket: &Socket) -> f32 {
    f32::from_bits(socket.power().watts())
}

fn single(key: &str, device: Device) -> KeyedMap<Device> {
    devices(vec![(key.to_string(), device)])
}

#[test]
fn test_thermometer() {
    let thermometer = Thermometer::new("Thermometer1".to_string(), celsius(23.5));
    assert_eq!(thermometer.name(), "Thermometer1");
    assert!((f32::from_bits(thermometer.temperature().as_celsius()) - 23.5).abs() < 0.01);
}

#[test]
fn test_socket_on() {
    let mut socket = Socket::new("Socket1".to_string(), false, power(100.0));
    assert_eq!(socket.name(), "Socket1");
    assert!(!socket.is_on());
    assert!((watts_of(&socket) - 0.0).abs() < 0.01);

    socket.turn_on();
    assert!(socket.is_on());
    assert!((watts_of(&socket) - 100.0).abs() < 0.01);
}

#[test]
fn test_socket_off() {
    let mut socket = Socket::new("Socket2".to_string(), true, power(150.0));
    assert!(socket.is_on());
    assert!((watts_of(&socket) - 150.0).abs() < 0.01);

    socket.turn_off();
    assert!(!socket.is_on());
    assert!((watts_of(&socket) - 0.0).abs() < 0.01);
}

#[test]
fn test_room_get_device() {
    let room = Room::new(
        "Kitchen".to_string(),
        devices(vec![
            (
                "t1".to_string(),
                Thermometer::new("T1".to_string(), celsius(20.0)).into(),
            ),
            (
                "s1".to_string(),
                Socket::new("S1".to_string(), true, power(50.0)).into(),
            ),
        ]),
    );

    assert_eq!(room.name(), "Kitchen");

    let device0 = room.device("t1").expect("t1");
    match device0 {
        Device::Thermometer(t) => assert_eq!(t.name(), "T1"),
        _ => panic!("Expected thermometer"),
    }

    let device1 = room.device("s1").expect("s1");
    match device1 {
        Device::Socket(s) => assert_eq!(s.name(), "S1"),
        _ => panic!("Expected socket"),
    }
}

#[test]
fn test_room_get_device_mut() {
    let mut room = Room::new(
        "Bedroom".to_string(),
        single("s1", Socket::new("S1".to_string(), true, power(50.0)).into()),
    );

    let device = room.device_mut("s1").expect("s1");
    match device {
        Device::Socket(s) => {
            s.turn_off();
        }
        _ => panic!("Expected socket"),
    }

    let device = room.device("s1").expect("s1");
    match device {
        Device::Socket(s) => assert!(!s.is_on()),
        _ => panic!("Expected socket"),
    }
}

#[test]
fn test_room_get_device_missing() {
    let room = Room::new("Room".to_string(), KeyedMap::new());
    assert!(room.device("x").is_none());
}

#[test]
fn test_smart_home_get_room() {
    let mut rooms = KeyedMap::new();
    rooms.insert(
        "Living Room".to_string(),
        Room::new("Living Room".to_string(), KeyedMap::new()),
    );
    rooms.insert(
        "Kitchen".to_string(),
        Room::new("Kitchen".to_string(), KeyedMap::new()),
    );
    let home = SmartHome::new("My Home".to_string(), rooms);

    assert_eq!(home.name(), "My Home");
    assert_eq!(home.room("Living Room").expect("lr").name(), "Living Room");
    assert_eq!(home.room("Kitchen").expect("k").name(), "Kitchen");
}

#[test]
fn test_smart_home_get_room_mut() {
    let mut rooms = KeyedMap::new();
    let devices = KeyedMap::new();
    rooms.insert(
        "Living Room".to_string(),
        Room::new("Living Room".to_string(), devices),
    );
    let mut home = SmartHome::new("My Home".to_string(), rooms);

    let room = home.room_mut("Living Room").expect("lr");
    assert_eq!(room.name(), "Living Room");
}

#[test]
fn test_smart_home_get_room_missing() {
    let home = SmartHome::new("Home".to_string(), KeyedMap::new());
    assert!(home.room("nope").is_none());
}

#[test]
fn test_device_resolve() {
    let mut rooms = KeyedMap::new();
    rooms.insert(
        "Kitchen".to_string(),
        Room::new(
            "Kitchen".to_string(),
            single("kettle", Socket::new("K".to_string(), true, power(1.0)).into()),
        ),
    );
    let home = SmartHome::new("H".to_string(), rooms);
    assert!(home.device("Kitchen", "kettle").is_ok());
    assert_eq!(
        home.device("Bad", "kettle").unwrap_err(),
        SmartHomeError::RoomNotFound {
            room: "Bad".to_string()
        }
    );
    assert_eq!(
        home.device("Kitchen", "missing").unwrap_err(),
        SmartHomeError::DeviceNotFound {
            room: "Kitchen".to_string(),
            device: "missing".to_string()
        }
    );
}

#[test]
fn test_device_print_state() {
    let thermometer = Device::Thermometer(Thermometer::new("T1".to_string(), celsius(22.5)));
    thermometer.print_state();

    let socket = Device::Socket(Socket::new("S1".to_string(), true, power(100.0)));
    socket.print_state();
}

#[test]
fn test_device_info_trait() {
    let thermometer = Thermometer::new("Kitchen".to_string(), celsius(22.0));
    assert_eq!(thermometer.name(), "Kitchen");
    let state = thermometer.state();
    assert!(state.contains("22.0"));

    let socket = Socket::new("TV".to_string(), true, power(120.0));
    assert_eq!(socket.name(), "TV");
    let state = socket.state();
    assert!(state.contains("on"));
}

#[test]
fn test_power_validation() {
    let valid_power = Power::new(100.0f32.to_bits());
    assert!(valid_power.is_ok());

    let invalid_power = Power::new((-10.0f32).to_bits());
    assert!(invalid_power.is_err());
}

#[test]
fn test_from_socket_thermometer_to_device() {
    let t: Device = Thermometer::new("x".to_string(), celsius(1.0)).into();
    assert!(matches!(t, Device::Thermometer(_)));
    let s: Device = Socket::new("y".to_string(), false, power(1.0)).into();
    assert!(matches!(s, Device::Socket(_)));
}

#[test]
fn test_report_trait() {
    let room = Room::new(
        "R".to_string(),
        single("a", Thermometer::new("T".to_string(), celsius(1.0)).into()),
    );
    assert!(room.report().contains("Room 'R'"));
    let mut rooms = KeyedMap::new();
    rooms.insert("R".to_string(), room);
    let home = SmartHome::new("H".to_string(), rooms);
    assert!(home.report().contains("Smart home 'H'"));
}

#[test]
fn full_home_workflow() {
    let kitchen = Room::new(
        "Kitchen".to_string(),
        devices(vec![
            (
                "kitchen_sensor".to_string(),
                Thermometer::new("Kitchen".to_string(), celsius(22.5)).into(),
            ),
            (
                "kettle".to_string(),
                Socket::new("Kettle".to_string(), true, power(1500.0)).into(),
            ),
        ]),
    );

    let living_room = Room::new(
        "Living Room".to_string(),
        single("tv", Socket::new("TV".to_string(), true, power(120.0)).into()),
    );

    let mut rooms = KeyedMap::new();
    rooms.insert("Kitchen".to_string(), kitchen);
    rooms.insert("Living Room".to_string(), living_room);

    let mut home = SmartHome::new("Test Home".to_string(), rooms);

    assert_eq!(home.room_count(), 2);
    assert_eq!(home.room("Kitchen").unwrap().device_count(), 2);
    assert_eq!(home.room("Living Room").unwrap().device_count(), 1);

    if let Ok(Device::Socket(socket)) = home.device_mut("Kitchen", "kettle") {
        socket.turn_off();
    }

    if let Ok(Device::Socket(socket)) = home.device("Kitchen", "kettle") {
        assert!(!socket.is_on());
        assert_eq!(watts_of(socket), 0.0);
    } else {
        panic!("expected kettle");
    }
}

#[test]
fn clone_and_equality() {
    let socket1 = Socket::new("Test".to_string(), true, power(100.0));
    let socket2 = socket1.clone();

    assert_eq!(socket1, socket2);

    let device1 = Device::Socket(socket1);
    let device2 = device1.clone();

    assert_eq!(device1, device2);
}

#[test]
fn room_with_multiple_devices() {
    let mut items = Vec::new();
    for i in 0..10 {
        items.push((
            format!("s{i}"),
            Device::Socket(Socket::new(
                format!("Socket {i}"),
                true,
                power(100.0 + i as f32),
            )),
        ));
    }

    let room = Room::new("Large Room".to_string(), devices(items));
    assert_eq!(room.device_count(), 10);

    let last_device = room.device("s9").expect("s9");
    assert_eq!(last_device.name(), "Socket 9");
}

#[test]
fn empty_home_and_rooms() {
    let home = SmartHome::new("Empty Home".to_string(), KeyedMap::new());
    assert_eq!(home.room_count(), 0);

    let room = Room::new("Empty Room".to_string(), KeyedMap::new());
    assert_eq!(room.device_count(), 0);
}

#[test]
fn report_contains_expected_sections() {
    let r = Room::new(
        "Kitchen".to_string(),
        single("t", Thermometer::new("T".to_string(), celsius(20.0)).into()),
    );
    let s = r.report();
    assert!(s.contains("Kitchen"));
    assert!(s.contains("20.0"));

    let mut rooms = KeyedMap::new();
    rooms.insert("Kitchen".to_string(), r);
    let home = SmartHome::new("H".to_string(), rooms);
    assert!(home.report().contains("Smart home 'H'"));
}

// ---- further cases ----

#[test]
fn report_lists_rooms_and_devices_in_key_order() {
    let room_b = Room::new(
        "B".to_string(),
        devices(vec![
            ("z".to_string(), Socket::new("Zed".to_string(), false, power(5.0)).into()),
            ("a".to_string(), Thermometer::new("Ay".to_string(), celsius(21.0)).into()),
        ]),
    );
    let room_a = Room::new("A".to_string(), KeyedMap::new());
    let mut rooms = KeyedMap::new();
    rooms.insert("b".to_string(), room_b);
    rooms.insert("a".to_string(), room_a);
    let home = SmartHome::new("Home".to_string(), rooms);
    let text = home.report();
    let a = text.find("Room 'A'").unwrap();
    let b = text.find("Room 'B'").unwrap();
    assert!(a < b);
    let ay = text.find("Ay").unwrap();
    let zed = text.find("Zed").unwrap();
    assert!(ay < zed);
    assert!(text.contains("(no devices)"));
    assert!(text.starts_with("Smart home 'Home':\n"));
}

#[test]
fn empty_home_report_says_no_rooms() {
    let home = SmartHome::new("Nothing".to_string(), KeyedMap::new());
    assert_eq!(home.report(), "Smart home 'Nothing':\n  (no rooms)\n\n");
}

#[test]
fn later_item_with_same_key_wins() {
    let map = devices(vec![
        ("k".to_string(), Socket::new("First".to_string(), true, power(1.0)).into()),
        ("k".to_string(), Socket::new("Second".to_string(), true, power(2.0)).into()),
    ]);
    assert_eq!(map.len(), 1);
    assert_eq!(map.get("k").unwrap().name(), "Second");
}

#[test]
fn insert_then_remove_device() {
    let mut room = Room::new("R".to_string(), KeyedMap::new());
    assert!(room
        .insert_device(
            "x".to_string(),
            Socket::new("X".to_string(), false, power(3.0)).into()
        )
        .is_none());
    assert_eq!(room.device("x").unwrap().name(), "X");
    let replaced = room.insert_device(
        "x".to_string(),
        Socket::new("Y".to_string(), false, power(3.0)).into(),
    );
    assert_eq!(replaced.unwrap().name(), "X");
    assert_eq!(room.device("x").unwrap().name(), "Y");
    assert!(room.remove_device("x").is_some());
    assert!(room.device("x").is_none());
    assert!(room.remove_device("x").is_none());
}

#[test]
fn insert_then_remove_room() {
    let mut home = SmartHome::new("H".to_string(), KeyedMap::new());
    assert!(home
        .insert_room("r".to_string(), Room::new("R".to_string(), KeyedMap::new()))
        .is_none());
    assert_eq!(home.room_count(), 1);
    assert!(home.remove_room("r").is_some());
    assert!(home.room("r").is_none());
    assert!(home.remove_room("r").is_none());
}

#[test]
fn error_messages() {
    let e = SmartHomeError::RoomNotFound {
        room: "Attic".to_string(),
    };
    assert_eq!(e.message(), "room not found: Attic");
    let e = SmartHomeError::DeviceNotFound {
        room: "Attic".to_string(),
        device: "fan".to_string(),
    };
    assert_eq!(e.message(), "device not found: fan (in room Attic)");
}

#[test]
fn socket_state_lines() {
    let on = Socket::new("Lamp".to_string(), true, power(60.0));
    let off = Socket::new("Lamp".to_string(), false, power(60.0));
    assert!(on.state().contains("on"));
    assert!(on.state().contains("60.0"));
    assert!(off.state().contains("off"));
    assert!(off.state().contains("0.0"));
    assert_eq!(on.label(), "Socket(Lamp)");
}

#[test]
fn thermometer_default_reads_twenty() {
    let t = Thermometer::default();
    assert_eq!(f32::from_bits(t.temperature().as_celsius()), 20.0);
    assert_eq!(f32::from_bits(Temperature::default().as_celsius()), 20.0);
}

#[test]
fn rooms_compare_by_name_and_devices() {
    let a = Room::new(
        "R".to_string(),
        single("s", Socket::new("S".to_string(), true, power(1.0)).into()),
    );
    let b = a.clone();
    assert!(a == b);
    let c = Room::new(
        "R".to_string(),
        single("s", Socket::new("S".to_string(), false, power(1.0)).into()),
    );
    assert!(a != c);
}

#[test]
fn builder_builds_rooms_with_devices() {
    let home = HomeBuilder::with_name("Built")
        .add_room("Kitchen")
        .add_device("kettle", Socket::new("Kettle".to_string(), true, power(1500.0)))
        .add_device("t", Thermometer::new("T".to_string(), celsius(21.0)))
        .add_room("Hall")
        .build();
    assert_eq!(home.name(), "Built");
    assert_eq!(home.room_count(), 2);
    assert_eq!(home.room("Kitchen").unwrap().device_count(), 2);
    assert_eq!(home.room("Hall").unwrap().device_count(), 0);
    assert!(home.device("Kitchen", "kettle").is_ok());
}

#[test]
fn powers_compare_as_values() {
    assert!(Power::new(0.0f32.to_bits()).unwrap() == Power::new((-0.0f32).to_bits()).unwrap());
    assert!(celsius(f32::NAN) != celsius(f32::NAN));
    assert!(Power::new(1.0f32.to_bits()).unwrap() != Power::new(2.0f32.to_bits()).unwrap());
}

#[test]
fn remote_socket_follows_its_outlet() {
    let rated = power(99.0);
    let mut socket = Socket::remote(
        "s".to_string(),
        "127.0.0.1:1".to_string(),
        rated,
        (false, 0.0f32.to_bits()),
    );
    assert!(socket.is_remote());
    assert_eq!(socket.remote_address(), Some("127.0.0.1:1"));
    assert!(!socket.is_on());
    // Switching a remote socket names the command; nothing changes yet.
    assert_eq!(socket.turn_on(), Some(Command::SetOn));
    assert!(!socket.is_on());
    // The command went through: a status query follows.
    assert!(socket.finish_command(Ok(())));
    socket.apply_status(Ok((true, 99.0f32.to_bits())));
    assert!(socket.is_on());
    assert_eq!(watts_of(&socket), 99.0);
    assert_eq!(socket.last_error(), None);
    // A failed exchange keeps the status and records the error.
    assert_eq!(socket.turn_off(), Some(Command::SetOff));
    assert!(!socket.finish_command(Err("connection refused".to_string())));
    assert!(socket.is_on());
    assert_eq!(socket.last_error(), Some("connection refused".to_string()));
    assert!(socket.state().contains("[error: connection refused]"));
    socket.apply_status(Ok((false, 0)));
    assert!(!socket.is_on());
    assert_eq!(socket.last_error(), None);
    // A negative reported power reads as zero.
    socket.apply_status(Ok((true, (-1.0f32).to_bits())));
    assert_eq!(watts_of(&socket), 0.0);
}

#[test]
fn local_socket_ignores_exchange_outcomes() {
    let mut socket = Socket::new("l".to_string(), true, power(5.0));
    assert!(!socket.finish_command(Ok(())));
    socket.apply_status(Ok((false, 0)));
    assert!(socket.is_on());
    assert_eq!(socket.turn_off(), None);
    assert!(!socket.is_on());
    assert_eq!(socket.remote_address(), None);
}

#[test]
fn fed_thermometer_shows_last_reading() {
    let feed = Arc::new(Mutex::new(None));
    let t = Thermometer::from_feed("t".to_string(), celsius(1.0), 7, Arc::clone(&feed));
    assert!(t.is_udp());
    assert!(!t.has_udp_reading());
    assert!((f32::from_bits(t.temperature().as_celsius()) - 1.0).abs() < 0.01);

    let payload = encode_temperature_celsius(19.25f32.to_bits());
    let reading = decode_temperature_celsius(&payload).unwrap();
    *feed.lock().unwrap() = Some(reading.as_celsius());

    assert!(t.has_udp_reading());
    assert!((f32::from_bits(t.temperature().as_celsius()) - 19.25).abs() < 0.01);
    assert!(t.state().contains("19.2"));
    let copy = t.clone();
    assert!(copy == t);
}

#[test]
fn copies_equal_their_originals_unless_nan() {
    let home = smart_home::api::demo_home();
    let copy = home.clone();
    assert!(copy == home);
    assert!(home == copy);

    let nan = Thermometer::new("n".to_string(), celsius(f32::NAN));
    let nan_copy = nan.clone();
    assert!(nan_copy != nan);
    let room = Room::new("R".to_string(), single("n", nan.into()));
    assert!(room.clone() != room);
}

#[test]
fn counts_follow_insertions_and_removals() {
    let mut home = SmartHome::new("H".to_string(), KeyedMap::new());
    home.insert_room("a".to_string(), Room::new("A".to_string(), KeyedMap::new()));
    home.insert_room("a".to_string(), Room::new("A2".to_string(), KeyedMap::new()));
    assert_eq!(home.room_count(), 1);
    home.insert_room("b".to_string(), Room::new("B".to_string(), KeyedMap::new()));
    assert_eq!(home.room_count(), 2);
    home.remove_room("a");
    home.remove_room("a");
    assert_eq!(home.room_count(), 1);
    let room = home.room_mut("b").unwrap();
    room.insert_device("x".to_string(), Socket::default().into());
    room.insert_device("y".to_string(), Thermometer::default().into());
    assert_eq!(room.device_count(), 2);
    room.remove_device("x");
    assert_eq!(room.device_count(), 1);
}

#[test]
fn remote_nan_report_reads_as_zero() {
    let mut socket = Socket::remote(
        "s".to_string(),
        "127.0.0.1:1".to_string(),
        power(10.0),
        (true, f32::NAN.to_bits()),
    );
    assert_eq!(watts_of(&socket), 0.0);
    socket.apply_status(Ok((true, 7.0f32.to_bits())));
    assert_eq!(watts_of(&socket), 7.0);
}
