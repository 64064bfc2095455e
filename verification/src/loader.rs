//! Where the dynamically loaded smart socket library lies: the build
//! directory two levels above the loading program's sources, the build
//! profile, and the platform's file name for a shared library.

use vstd::prelude::*;

verus! {

/// The platform the program was built for, as far as file names go.
#[derive(Debug, Clone, Copy, PartialEq, Eq, Structural)]
pub enum TargetOs {
    Windows,
    MacOs,
    /// Linux and every other Unix.
    Other,
}

/// The file name of the shared library on `os`.
pub open spec fn file_name_text(os: TargetOs) -> Seq<char> {
    match os {
        TargetOs::Windows => "smart_socket_ffi.dll"@,
        TargetOs::MacOs => "libsmart_socket_ffi.dylib"@,
        TargetOs::Other => "libsmart_socket_ffi.so"@,
    }
}

/// The build profile's directory name.
pub open spec fn profile_text(debug: bool) -> Seq<char> {
    if debug {
        "debug"@
    } else {
        "release"@
    }
}

/// The character that separates path components on `os`.
pub open spec fn separator(os: TargetOs) -> char {
    if os == TargetOs::Windows {
        '\\'
    } else {
        '/'
    }
}

/// `c` ends a path component on `os` (Windows takes both slashes).
pub open spec fn ends_component(c: char, os: TargetOs) -> bool {
    c == '/' || (os == TargetOs::Windows && c == '\\')
}

/// `part` (relative) appended to `base` as a path component: nothing is put
/// between them when `base` is empty or already ends with a separator.
pub open spec fn joined(base: Seq<char>, part: Seq<char>, os: TargetOs) -> Seq<char> {
    if base.len() == 0 || ends_component(base.last(), os) {
        base + part
    } else {
        base.push(separator(os)) + part
    }
}

/// `<dir>/../../target/<profile>/<file name>`, joined as paths are on `os`.
pub open spec fn library_path_text(dir: Seq<char>, debug: bool, os: TargetOs) -> Seq<char> {
    joined(joined(joined(dir, "../../target"@, os), profile_text(debug), os), file_name_text(os), os)
}

/// The message given when no library lies at `path`.
pub open spec fn missing_library_text(path: Seq<char>) -> Seq<char> {
    "cdylib not found at "@ + path
        + ". Run `cargo build -p smart_socket_ffi` first (or `cargo build` from the workspace root)."@
}

/// The file name of the shared library on `os`.
pub fn library_file_name(os: TargetOs) -> (r: &'static str)
    ensures
        r@ == file_name_text(os),
{
    match os {
        TargetOs::Windows => "smart_socket_ffi.dll",
        TargetOs::MacOs => "libsmart_socket_ffi.dylib",
        TargetOs::Other => "libsmart_socket_ffi.so",
    }
}

fn join(base: &mut String, part: &str, os: TargetOs)
    ensures
        final(base)@ == joined(old(base)@, part@, os),
{
    let n = base.as_str().unicode_len();
    let needs_separator = if n == 0 {
        false
    } else {
        let c = base.as_str().get_char(n - 1);
        !(c == '/' || (os == TargetOs::Windows && c == '\\'))
    };
    if needs_separator {
        if os == TargetOs::Windows {
            base.append("\\");
            proof {
                reveal_strlit("\\");
            }
        } else {
            base.append("/");
            proof {
                reveal_strlit("/");
            }
        }
    }
    base.append(part);
}

/// The path at which the shared library is looked for.
pub fn library_path(manifest_dir: &str, debug: bool, os: TargetOs) -> (r: String)
    ensures
        r@ == library_path_text(manifest_dir@, debug, os),
{
    let mut path = manifest_dir.to_string();
    join(&mut path, "../../target", os);
    let profile = if debug {
        "debug"
    } else {
        "release"
    };
    join(&mut path, profile, os);
    join(&mut path, library_file_name(os), os);
    path
}

/// The library's path when a file lies there (`found`), else the message
/// that tells how to build it.
pub fn resolve_library_path(manifest_dir: &str, debug: bool, os: TargetOs, found: bool) -> (r: Result<String, String>)
    ensures
        match r {
            Ok(p) => found && p@ == library_path_text(manifest_dir@, debug, os),
            Err(m) => !found && m@ == missing_library_text(library_path_text(manifest_dir@, debug, os)),
        },
{
    let path = library_path(manifest_dir, debug, os);
    if found {
        return Ok(path);
    }
    let mut m = "cdylib not found at ".to_string();
    m.append(path.as_str());
    m.append(". Run `cargo build -p smart_socket_ffi` first (or `cargo build` from the workspace root).");
    Err(m)
}

} // verus!
