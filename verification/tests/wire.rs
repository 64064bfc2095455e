use smart_home::sim::{
    arg_step, config_lines, config_parts, config_period, drain_lines, handle_command, period_ms, reading_seed, reply_line,
    scan_args, take_line, ArgStep, ConfigError, OutletState, Reply,
};
use smart_home::wire::{
    check_ok_reply, decode_flag, decode_temperature_celsius, encode_temperature_celsius,
    finish_status, format_status_line, frame_line, parse_status_line, Command, WireError,
};

/// Reads a status line as the outlet's client does: split, then the watts
/// field read as a number.
fn read_status(line: &str) -> Result<(bool, f32), WireError> {
    let fields = parse_status_line(line)?;
    let watts = match fields.watts.parse::<f32>() {
        Ok(w) => Ok(w.to_bits()),
        Err(e) => Err(e.to_string()),
    };
    let (on, bits) = finish_status(&fields, watts)?;
    Ok((on, f32::from_bits(bits)))
}

#[test]
fn parse_status_roundtrip() {
    let s = "STATUS,1,123.5";
    let (on, w) = read_status(s).unwrap();
    assert!(on);
    assert!((w - 123.5).abs() < 0.01);
    let line = format_status_line(true, &123.5f32.to_string());
    let (on2, w2) = read_status(line.trim_end()).unwrap();
    assert!(on2);
    assert!((w2 - 123.5).abs() < 0.01);
}

#[test]
fn temperature_udp_roundtrip() {
    let b = encode_temperature_celsius((-3.5f32).to_bits());
    let t = decode_temperature_celsius(&b).unwrap();
    assert!((f32::from_bits(t.as_celsius()) + 3.5).abs() < 0.0001);
}

// ---- further cases ----

#[test]
fn status_line_text() {
    assert_eq!(format_status_line(true, "12.5"), "STATUS,1,12.5\n");
    assert_eq!(format_status_line(false, "0"), "STATUS,0,0\n");
}

#[test]
fn status_line_errors() {
    assert!(matches!(read_status("HELLO"), Err(WireError::BadPrefix)));
    assert!(matches!(read_status("STATUS,1"), Err(WireError::MissingWatts)));
    match read_status("STATUS,1,abc") {
        Err(WireError::BadWatts(m)) => assert_eq!(m, "invalid float literal"),
        other => panic!("unexpected {other:?}"),
    }
    match read_status("STATUS,maybe,1.0") {
        Err(WireError::BadFlag(f)) => assert_eq!(f, "maybe"),
        other => panic!("unexpected {other:?}"),
    }
    assert_eq!(WireError::BadPrefix.message(), "bad STATUS prefix");
    assert_eq!(WireError::MissingWatts.message(), "STATUS missing watts");
    assert_eq!(
        WireError::BadFlag("x".to_string()).message(),
        "bad on/off flag: x"
    );
    assert_eq!(
        WireError::NotOk("NO \"way\"".to_string()).message(),
        "expected OK, got \"NO \\\"way\\\"\""
    );
}

#[test]
fn flags() {
    for w in ["1", "on", "ON", "true", "TRUE"] {
        assert_eq!(decode_flag(w), Some(true));
    }
    for w in ["0", "off", "OFF", "false", "FALSE"] {
        assert_eq!(decode_flag(w), Some(false));
    }
    assert_eq!(decode_flag("On"), None);
    assert_eq!(read_status("  STATUS,off,7 \r\n").unwrap(), (false, 7.0));
}

#[test]
fn ok_replies() {
    assert!(check_ok_reply("OK").is_ok());
    assert!(check_ok_reply(" OK \r").is_ok());
    assert!(matches!(check_ok_reply("ERR"), Err(WireError::NotOk(l)) if l == "ERR"));
}

#[test]
fn lines_are_framed_once() {
    assert_eq!(frame_line(b"SET_ON"), b"SET_ON\n".to_vec());
    assert_eq!(frame_line(b"SET_ON\n"), b"SET_ON\n".to_vec());
    assert_eq!(frame_line(b""), b"\n".to_vec());
}

#[test]
fn command_texts() {
    assert_eq!(Command::GetStatus.text(), "GET_STATUS");
    assert_eq!(Command::SetOn.text(), "SET_ON");
    assert_eq!(Command::SetOff.text(), "SET_OFF");
}

#[test]
fn datagram_layout() {
    let bits = 21.25f32.to_bits();
    assert_eq!(encode_temperature_celsius(bits), 21.25f32.to_le_bytes());
    assert!(decode_temperature_celsius(&[1, 2, 3]).is_none());
    let t = decode_temperature_celsius(&[0, 0, 0xa0, 0x41, 9]).unwrap();
    assert_eq!(f32::from_bits(t.as_celsius()), 20.0);
}

#[test]
fn outlet_commands() {
    let mut state = OutletState {
        is_on: false,
        nominal_watts: 1500.0f32.to_bits(),
    };
    match handle_command(&mut state, "GET_STATUS") {
        Some(Reply::Status { is_on, watts }) => {
            assert!(!is_on);
            assert_eq!(watts, 0);
        }
        other => panic!("unexpected {other:?}"),
    }
    match handle_command(&mut state, " SET_ON \r") {
        Some(Reply::Line(l)) => assert_eq!(l, "OK"),
        other => panic!("unexpected {other:?}"),
    }
    assert!(state.is_on);
    assert_eq!(state.watts_now(), 1500.0f32.to_bits());
    assert!(handle_command(&mut state, "   ").is_none());
    match handle_command(&mut state, "JUMP") {
        Some(Reply::Line(l)) => assert_eq!(l, "ERR unknown command: JUMP"),
        other => panic!("unexpected {other:?}"),
    }
    match handle_command(&mut state, "SET_OFF") {
        Some(Reply::Line(l)) => assert_eq!(l, "OK"),
        other => panic!("unexpected {other:?}"),
    }
    assert!(!state.is_on);
}

#[test]
fn reply_lines() {
    let status = Reply::Status {
        is_on: true,
        watts: 60.0f32.to_bits(),
    };
    assert_eq!(reply_line(&status, "60"), "STATUS,1,60");
    assert_eq!(reply_line(&Reply::Line("OK".to_string()), ""), "OK");
}

#[test]
fn take_line_splits_at_first_newline() {
    let mut buf = b"GET_STATUS\nSET_".to_vec();
    assert_eq!(take_line(&mut buf), Some(b"GET_STATUS".to_vec()));
    assert_eq!(buf, b"SET_".to_vec());
    assert_eq!(take_line(&mut buf), None);
    assert_eq!(buf, b"SET_".to_vec());
}

#[test]
fn drain_in_pieces_gives_the_same_replies() {
    let mut whole_state = OutletState {
        is_on: false,
        nominal_watts: 100.0f32.to_bits(),
    };
    let mut whole = b"SET_ON\nGET_STATUS\n\nBAD\nSET".to_vec();
    let replies = drain_lines(&mut whole, &mut whole_state);
    assert_eq!(replies.len(), 3);
    assert!(whole_state.is_on);
    assert_eq!(whole, b"SET".to_vec());
    assert!(matches!(&replies[1], Reply::Status { is_on: true, watts } if *watts == 100.0f32.to_bits()));
    assert!(matches!(&replies[0], Reply::Line(l) if l == "OK"));
    assert!(matches!(&replies[2], Reply::Line(l) if l == "ERR unknown command: BAD"));

    let mut state = OutletState {
        is_on: false,
        nominal_watts: 100.0f32.to_bits(),
    };
    let mut buf = b"SET_O".to_vec();
    let first = drain_lines(&mut buf, &mut state);
    assert!(first.is_empty());
    buf.extend_from_slice(b"N\nGET_STATUS\n\nBAD\nSET");
    let second = drain_lines(&mut buf, &mut state);
    assert_eq!(second.len(), 3);
    assert_eq!(buf, b"SET".to_vec());
    assert!(state.is_on);
}

#[test]
fn invalid_utf8_is_replaced() {
    let mut state = OutletState {
        is_on: false,
        nominal_watts: 0,
    };
    let mut buf = vec![0xff, b'A', b'\n'];
    let replies = drain_lines(&mut buf, &mut state);
    assert!(matches!(&replies[0], Reply::Line(l) if l == "ERR unknown command: \u{fffd}A"));
}

#[test]
fn simulator_arguments() {
    assert!(matches!(arg_step("--on", None), ArgStep::On));
    assert!(matches!(arg_step("--off", Some("x")), ArgStep::Off));
    assert!(matches!(arg_step("--watts", Some("60")), ArgStep::Watts(w) if w == "60"));
    assert!(matches!(arg_step("--watts", None), ArgStep::Fail(m) if m == "--watts needs a value"));
    assert!(matches!(arg_step("-x", None), ArgStep::Fail(m) if m == "unknown arg: -x"));
}

#[test]
fn thermometer_configuration() {
    let lines = config_lines("  127.0.0.1:9000 \r\n\n 250\n21.5\n");
    assert_eq!(lines, vec!["127.0.0.1:9000", "250", "21.5"]);
    assert!(config_lines("\n  \n").is_empty());
    assert_eq!(period_ms("250").unwrap(), 250);
    assert_eq!(period_ms("+7").unwrap(), 7);
    match period_ms("-1") {
        Err(e) => assert_eq!(e.message(), "invalid period ms: invalid digit found in string"),
        Ok(_) => panic!("accepted"),
    }
    assert_eq!(
        ConfigError::MissingDestination.message(),
        "missing destination line"
    );
    assert_eq!(ConfigError::MissingPeriod.message(), "missing period line");
    assert_eq!(
        ConfigError::BadDestination("x".to_string()).message(),
        "invalid destination: x"
    );
    assert_eq!(
        ConfigError::BadTemperature("y".to_string()).message(),
        "invalid temperature: y"
    );
}

#[test]
fn reading_seeds_stay_below_ten_thousand() {
    for tick in [0u64, 1, 2, 99, u64::MAX] {
        let expected = (tick.wrapping_mul(6364136223846793005) ^ 0x9E37_79B9) % 10_000;
        assert_eq!(reading_seed(tick), expected);
        assert!(reading_seed(tick) < 10_000);
    }
    assert_eq!(reading_seed(0), 0x9E37_79B9 % 10_000);
}

#[test]
fn simulator_argument_scan() {
    let args: Vec<String> = ["--on", "--watts", "60", "--off", "--watts", "75"]
        .iter()
        .map(|s| s.to_string())
        .collect();
    let scan = scan_args(&args);
    assert!(!scan.is_on);
    assert_eq!(scan.watts, vec!["60", "75"]);
    assert!(scan.fail.is_none());
    let args: Vec<String> = ["--watts", "abc", "--bogus", "--on"]
        .iter()
        .map(|s| s.to_string())
        .collect();
    let scan = scan_args(&args);
    assert_eq!(scan.watts, vec!["abc"]);
    assert_eq!(scan.fail, Some("unknown arg: --bogus".to_string()));
    assert!(!scan.is_on);
    let args: Vec<String> = vec!["--on".to_string(), "--watts".to_string()];
    let scan = scan_args(&args);
    assert!(scan.is_on);
    assert_eq!(scan.fail, Some("--watts needs a value".to_string()));
}

#[test]
fn thermometer_configuration_parts() {
    assert!(matches!(config_parts(" \n\n"), Err(ConfigError::MissingDestination)));
    let p = config_parts("127.0.0.1:9\n").unwrap();
    assert_eq!(p.dest, "127.0.0.1:9");
    assert!(p.period.is_none());
    assert!(matches!(config_period(&p), Err(ConfigError::MissingPeriod)));
    let p = config_parts("a\n 250 \n21.5\nextra\n").unwrap();
    assert_eq!(p.period, Some("250".to_string()));
    assert_eq!(p.fixed, Some("21.5".to_string()));
    assert_eq!(config_period(&p).unwrap(), 250);
    let p = config_parts("a\nfast\n").unwrap();
    match config_period(&p) {
        Err(e) => assert_eq!(e.message(), "invalid period ms: invalid digit found in string"),
        Ok(_) => panic!("accepted"),
    }
}
