use smart_home::loader::{library_file_name, library_path, resolve_library_path, TargetOs};
use smart_home::outlet::{
    smart_socket_free, smart_socket_is_on, smart_socket_new, smart_socket_power,
    smart_socket_rated_power, smart_socket_turn_off, smart_socket_turn_on, smart_socket_version,
    SmartSocket,
};

fn socket(is_on: bool, power: f32) -> Option<SmartSocket> {
    let handle = smart_socket_new(is_on, power.to_bits());
    assert!(handle.is_some(), "socket should be created");
    handle
}

fn watts(bits: u32) -> f32 {
    f32::from_bits(bits)
}

#[test]
fn new_rejects_negative_power() {
    assert!(smart_socket_new(false, (-1.0f32).to_bits()).is_none());
    assert!(smart_socket_new(true, f32::NAN.to_bits()).is_none());
}

#[test]
fn on_off_cycle() {
    let mut handle = socket(false, 100.0);
    assert!(!smart_socket_is_on(handle.as_ref()));
    assert_eq!(watts(smart_socket_power(handle.as_ref())), 0.0);

    smart_socket_turn_on(&mut handle);
    assert!(smart_socket_is_on(handle.as_ref()));
    assert_eq!(watts(smart_socket_power(handle.as_ref())), 100.0);

    smart_socket_turn_off(&mut handle);
    assert!(!smart_socket_is_on(handle.as_ref()));
    assert_eq!(watts(smart_socket_power(handle.as_ref())), 0.0);

    assert!(smart_socket_free(&mut handle));
}

#[test]
fn rated_power() {
    let mut handle = socket(true, 250.0);
    assert_eq!(watts(smart_socket_rated_power(handle.as_ref())), 250.0);
    smart_socket_turn_off(&mut handle);
    // Rated power is independent of the on/off state.
    assert_eq!(watts(smart_socket_rated_power(handle.as_ref())), 250.0);
    assert!(smart_socket_free(&mut handle));
}

#[test]
fn null_handles_are_safe() {
    let mut null: Option<SmartSocket> = None;
    assert!(!smart_socket_free(&mut null));
    smart_socket_turn_on(&mut null);
    smart_socket_turn_off(&mut null);
    assert!(!smart_socket_is_on(None));
    assert_eq!(watts(smart_socket_power(None)), 0.0);
    assert_eq!(watts(smart_socket_rated_power(None)), 0.0);
}

#[test]
fn invalid_handle_is_rejected() {
    let mut handle = socket(true, 100.0);

    // Releasing stamps out the cookie; the handle is then foreign to every entry point.
    assert!(smart_socket_free(&mut handle));

    smart_socket_turn_on(&mut handle);
    smart_socket_turn_off(&mut handle);
    assert!(!smart_socket_is_on(handle.as_ref()));
    assert_eq!(watts(smart_socket_power(handle.as_ref())), 0.0);
    assert_eq!(watts(smart_socket_rated_power(handle.as_ref())), 0.0);
    // A second release is refused.
    assert!(!smart_socket_free(&mut handle));
}

#[test]
fn version_is_non_null() {
    let s = smart_socket_version();
    assert!(!s.is_empty());
    assert!(s.starts_with("smart_socket_ffi"));
    assert_eq!(s, "smart_socket_ffi 0.1.0");
}

// ---- further cases ----

#[test]
fn zero_and_infinite_power_are_accepted() {
    assert!(smart_socket_new(true, 0.0f32.to_bits()).is_some());
    assert!(smart_socket_new(true, (-0.0f32).to_bits()).is_some());
    assert!(smart_socket_new(true, f32::INFINITY.to_bits()).is_some());
}

#[test]
fn library_paths() {
    assert_eq!(library_file_name(TargetOs::Other), "libsmart_socket_ffi.so");
    assert_eq!(library_file_name(TargetOs::MacOs), "libsmart_socket_ffi.dylib");
    assert_eq!(library_file_name(TargetOs::Windows), "smart_socket_ffi.dll");
    assert_eq!(
        library_path("/work/ffi/app_dynamic", true, TargetOs::Other),
        "/work/ffi/app_dynamic/../../target/debug/libsmart_socket_ffi.so"
    );
    assert_eq!(
        library_path("/work/ffi/app_dynamic/", false, TargetOs::MacOs),
        "/work/ffi/app_dynamic/../../target/release/libsmart_socket_ffi.dylib"
    );
    assert_eq!(
        library_path("C:\\w\\app", true, TargetOs::Windows),
        "C:\\w\\app\\../../target\\debug\\smart_socket_ffi.dll"
    );
    assert_eq!(
        resolve_library_path("/w", true, TargetOs::Other, true).unwrap(),
        "/w/../../target/debug/libsmart_socket_ffi.so"
    );
    assert_eq!(
        resolve_library_path("/w", false, TargetOs::Other, false).unwrap_err(),
        "cdylib not found at /w/../../target/release/libsmart_socket_ffi.so. \
         Run `cargo build -p smart_socket_ffi` first (or `cargo build` from the workspace root)."
    );
}

#[test]
fn library_path_matches_std_join() {
    let expected = std::path::Path::new("/work/ffi/app_dynamic")
        .join("../../target")
        .join("debug")
        .join("libsmart_socket_ffi.so");
    assert_eq!(
        library_path("/work/ffi/app_dynamic", true, TargetOs::Other),
        expected.to_str().unwrap()
    );
}
