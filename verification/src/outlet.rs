//! The smart socket offered to C programs: an on/off switch with a rated
//! power. A handle is either absent (the null pointer) or a socket; every
//! entry point ignores an absent handle and one whose cookie was stamped out
//! when it was released, answering `false` or zero watts.

use vstd::prelude::*;

use crate::types::{is_nan_bits, is_negative_bits, nan_bits, negative_bits};

verus! {

/// Cookie carried by every live socket ("SSOK").
pub const COOKIE: u32 = 0x5353_4F4B;

/// Smart socket: on/off switch with a rated power consumption (the bit
/// pattern of a value in watts).
#[derive(Debug)]
pub struct SmartSocket {
    cookie: u32,
    is_on: bool,
    power_watts: u32,
}

impl SmartSocket {
    /// The socket carries the cookie: it was made here and not released.
    pub closed spec fn live(&self) -> bool {
        self.cookie == COOKIE
    }

    /// The switch.
    pub closed spec fn on_view(&self) -> bool {
        self.is_on
    }

    /// The rated power.
    pub closed spec fn rated_view(&self) -> u32 {
        self.power_watts
    }

    fn new(is_on: bool, power_watts: u32) -> (r: Option<SmartSocket>)
        ensures
            match r {
                Some(s) => {
                    &&& !is_nan_bits(power_watts)
                    &&& !is_negative_bits(power_watts)
                    &&& s.live()
                    &&& s.on_view() == is_on
                    &&& s.rated_view() == power_watts
                },
                None => is_nan_bits(power_watts) || is_negative_bits(power_watts),
            },
    {
        if nan_bits(power_watts) || negative_bits(power_watts) {
            return None;
        }
        Some(SmartSocket { cookie: COOKIE, is_on, power_watts })
    }

    /// Current power consumption: the rated power when on, zero when off.
    fn power(&self) -> (r: u32)
        ensures
            r == (if self.on_view() {
                self.rated_view()
            } else {
                0u32
            }),
    {
        if self.is_on {
            self.power_watts
        } else {
            0
        }
    }
}

/// What an entry point sees behind a handle: a live socket, or nothing.
pub open spec fn live_socket(handle: Option<SmartSocket>) -> bool {
    handle matches Some(s) && s.live()
}

/// The socket behind `handle` after the switch was set to `on`: a live
/// socket changes only its switch; anything else stays as it was.
pub open spec fn switched(old_handle: Option<SmartSocket>, new_handle: Option<SmartSocket>, on: bool) -> bool {
    match old_handle {
        Some(s) => new_handle matches Some(t) && {
            &&& t.live() == s.live()
            &&& t.rated_view() == s.rated_view()
            &&& t.on_view() == (if s.live() {
                on
            } else {
                s.on_view()
            })
        },
        None => new_handle is None,
    }
}

/// Creates a socket with the given switch and rated power; a negative or
/// NaN power gives no socket (the null handle).
pub fn smart_socket_new(is_on: bool, power_watts: u32) -> (r: Option<SmartSocket>)
    ensures
        r is Some <==> !is_nan_bits(power_watts) && !is_negative_bits(power_watts),
        r matches Some(s) ==> s.live() && s.on_view() == is_on && s.rated_view() == power_watts,
{
    SmartSocket::new(is_on, power_watts)
}

/// Releases a live socket: its cookie is stamped out, so that every later
/// call with the same handle is ignored, a second release included. Tells
/// whether the handle was released.
pub fn smart_socket_free(handle: &mut Option<SmartSocket>) -> (released: bool)
    ensures
        released == live_socket(*old(handle)),
        match *old(handle) {
            Some(s) => *final(handle) matches Some(t) && {
                &&& !t.live()
                &&& t.on_view() == s.on_view()
                &&& t.rated_view() == s.rated_view()
            },
            None => *final(handle) is None,
        },
{
    match handle {
        Some(s) => {
            if s.cookie != COOKIE {
                return false;
            }
            s.cookie = 0;
            true
        },
        None => false,
    }
}

/// Turns a live socket on; otherwise does nothing.
pub fn smart_socket_turn_on(handle: &mut Option<SmartSocket>)
    ensures
        switched(*old(handle), *final(handle), true),
{
    if let Some(s) = handle {
        if s.cookie == COOKIE {
            s.is_on = true;
        }
    }
}

/// Turns a live socket off; otherwise does nothing.
pub fn smart_socket_turn_off(handle: &mut Option<SmartSocket>)
    ensures
        switched(*old(handle), *final(handle), false),
{
    if let Some(s) = handle {
        if s.cookie == COOKIE {
            s.is_on = false;
        }
    }
}

/// Whether a live socket is on; `false` for any other handle.
pub fn smart_socket_is_on(handle: Option<&SmartSocket>) -> (r: bool)
    ensures
        r == (handle matches Some(s) && s.live() && s.on_view()),
{
    match handle {
        Some(s) => s.cookie == COOKIE && s.is_on,
        None => false,
    }
}

/// The current power of a live socket (its rated power when on, zero when
/// off); zero for any other handle.
pub fn smart_socket_power(handle: Option<&SmartSocket>) -> (r: u32)
    ensures
        r == (match handle {
            Some(s) => if s.live() && s.on_view() {
                s.rated_view()
            } else {
                0u32
            },
            None => 0u32,
        }),
{
    match handle {
        Some(s) => if s.cookie == COOKIE {
            s.power()
        } else {
            0
        },
        None => 0,
    }
}

/// The rated power of a live socket, whether on or off; zero for any other
/// handle.
pub fn smart_socket_rated_power(handle: Option<&SmartSocket>) -> (r: u32)
    ensures
        r == (match handle {
            Some(s) => if s.live() {
                s.rated_view()
            } else {
                0u32
            },
            None => 0u32,
        }),
{
    match handle {
        Some(s) => if s.cookie == COOKIE {
            s.power_watts
        } else {
            0
        },
        None => 0,
    }
}

/// The library's name and version.
pub open spec fn version_text() -> Seq<char> {
    "smart_socket_ffi 0.1.0"@
}

/// The library's name and version: `smart_socket_ffi 0.1.0`.
pub fn smart_socket_version() -> (r: &'static str)
    ensures
        r@ == version_text(),
{
    "smart_socket_ffi 0.1.0"
}

} // verus!
