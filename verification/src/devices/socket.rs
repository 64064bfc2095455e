//! [`Socket`]: a smart outlet, switched locally or mirrored from a remote
//! outlet that speaks the line protocol of [`crate::wire`].
//!
//! A remote socket keeps the outlet's last reported status. The exchanges
//! themselves happen outside the library: [`Socket::turn_on`] names the
//! command to send, [`Socket::finish_command`] takes the outcome of sending
//! it, and [`Socket::apply_status`] takes the outcome of a status query.

use vstd::prelude::*;

use crate::decimal::{one_decimal, one_decimal_text};
use crate::devices::device::DeviceInfo;
use crate::report::Report;
use crate::types::{float_eq, is_power_bits, Power};
use crate::wire::Command;

verus! {

/// `on` or `off`.
pub open spec fn on_off_text(on: bool) -> Seq<char> {
    if on {
        "on"@
    } else {
        "off"@
    }
}

/// The state line of a socket.
pub open spec fn socket_state_text(
    name: Seq<char>,
    on: bool,
    watts: u32,
    error: Option<Seq<char>>,
) -> Seq<char> {
    let base = "Socket '"@ + name + "': "@ + on_off_text(on) + " (power: "@ + one_decimal_text(watts)
        + " W)"@;
    match error {
        Some(e) => base + " [error: "@ + e + "]"@,
        None => base,
    }
}

/// Where a socket's state lives.
#[derive(Debug)]
enum Link {
    /// Switched in this process.
    Local { is_on: bool, power: Power },
    /// Mirrors a remote outlet at `addr`; `is_on` and `watts` are its last status.
    Remote { addr: String, rated: Power, is_on: bool, watts: u32, last_error: Option<String> },
}

/// Smart socket for controlling electrical appliances.
#[derive(Debug)]
pub struct Socket {
    name: String,
    link: Link,
}

impl Socket {
    /// The socket's name.
    pub closed spec fn name_view(&self) -> Seq<char> {
        self.name@
    }

    /// The socket mirrors a remote outlet.
    pub closed spec fn remote_view(&self) -> bool {
        self.link is Remote
    }

    /// The socket is on (for a remote outlet: as last reported).
    pub closed spec fn on_view(&self) -> bool {
        match self.link {
            Link::Local { is_on, .. } => is_on,
            Link::Remote { is_on, .. } => is_on,
        }
    }

    /// The power of the connected appliance when on (bit pattern, watts).
    pub closed spec fn rated_view(&self) -> u32 {
        match self.link {
            Link::Local { power, .. } => power@,
            Link::Remote { rated, .. } => rated@,
        }
    }

    /// The watts a remote outlet last reported (bit pattern).
    pub closed spec fn reported_watts_view(&self) -> u32 {
        match self.link {
            Link::Local { .. } => 0,
            Link::Remote { watts, .. } => watts,
        }
    }

    /// The address of a remote outlet.
    pub closed spec fn address_view(&self) -> Option<Seq<char>> {
        match self.link {
            Link::Local { .. } => None,
            Link::Remote { addr, .. } => Some(addr@),
        }
    }

    /// The last error of the exchange with a remote outlet.
    pub closed spec fn error_view(&self) -> Option<Seq<char>> {
        match self.link {
            Link::Local { .. } => None,
            Link::Remote { last_error, .. } => match last_error {
                Some(e) => Some(e@),
                None => None,
            },
        }
    }

    /// The power drawn now (bit pattern, watts): zero when off; for a remote
    /// outlet the reported watts, or zero if they are negative or NaN.
    pub open spec fn power_view(&self) -> u32 {
        if self.remote_view() {
            if !is_power_bits(self.reported_watts_view()) {
                0
            } else {
                self.reported_watts_view()
            }
        } else if self.on_view() {
            self.rated_view()
        } else {
            0
        }
    }

    /// The state line of this socket.
    pub open spec fn state_text(&self) -> Seq<char> {
        socket_state_text(self.name_view(), self.on_view(), self.power_view(), self.error_view())
    }

    /// The rated power is a number that is never negative.
    pub closed spec fn wf(&self) -> bool {
        match self.link {
            Link::Local { power, .. } => power.wf(),
            Link::Remote { rated, .. } => rated.wf(),
        }
    }

    /// Creates a local socket.
    pub fn new(name: String, is_on: bool, power: Power) -> (r: Socket)
        ensures
            r.name_view() == name@,
            !r.remote_view(),
            r.on_view() == is_on,
            r.rated_view() == power@,
            r.error_view() is None,
            r.address_view() is None,
    {
        Socket { name, link: Link::Local { is_on, power } }
    }

    /// A socket mirroring the remote outlet at `addr`, which reported
    /// `status` (on/off and the bit pattern of its watts).
    pub fn remote(name: String, addr: String, rated: Power, status: (bool, u32)) -> (r: Socket)
        ensures
            r.name_view() == name@,
            r.remote_view(),
            r.address_view() == Some(addr@),
            r.on_view() == status.0,
            r.reported_watts_view() == status.1,
            r.rated_view() == rated@,
            r.error_view() is None,
    {
        Socket {
            name,
            link: Link::Remote { addr, rated, is_on: status.0, watts: status.1, last_error: None },
        }
    }

    /// The socket mirrors a remote outlet.
    pub fn is_remote(&self) -> (r: bool)
        ensures
            r == self.remote_view(),
    {
        match &self.link {
            Link::Local { .. } => false,
            Link::Remote { .. } => true,
        }
    }

    /// The address of the remote outlet, for a remote socket.
    pub fn remote_address(&self) -> (r: Option<&str>)
        ensures
            match r {
                Some(a) => self.address_view() == Some(a@),
                None => self.address_view() is None,
            },
    {
        match &self.link {
            Link::Local { .. } => None,
            Link::Remote { addr, .. } => Some(addr.as_str()),
        }
    }

    /// The last error of the exchange with the remote outlet; `None` for a
    /// local socket or after a successful exchange.
    pub fn last_error(&self) -> (r: Option<String>)
        ensures
            match r {
                Some(e) => self.error_view() == Some(e@),
                None => self.error_view() is None,
            },
    {
        match &self.link {
            Link::Local { .. } => None,
            Link::Remote { last_error, .. } => match last_error {
                Some(e) => Some(e.clone()),
                None => None,
            },
        }
    }

    /// Takes the outcome of a status query: on success the reported status
    /// replaces the cached one and the error is cleared, on failure the error
    /// is kept. A local socket is unchanged.
    pub fn apply_status(&mut self, outcome: Result<(bool, u32), String>)
        ensures
            final(self).name_view() == old(self).name_view(),
            final(self).remote_view() == old(self).remote_view(),
            final(self).rated_view() == old(self).rated_view(),
            final(self).address_view() == old(self).address_view(),
            !old(self).remote_view() ==> *final(self) == *old(self),
            old(self).remote_view() ==> match outcome {
                Ok((on, watts)) => {
                    &&& final(self).on_view() == on
                    &&& final(self).reported_watts_view() == watts
                    &&& final(self).error_view() is None
                },
                Err(e) => {
                    &&& final(self).on_view() == old(self).on_view()
                    &&& final(self).reported_watts_view() == old(self).reported_watts_view()
                    &&& final(self).error_view() == Some(e@)
                },
            },
    {
        match &mut self.link {
            Link::Local { .. } => {},
            Link::Remote { is_on, watts, last_error, .. } => match outcome {
                Ok((on, w)) => {
                    *is_on = on;
                    *watts = w;
                    *last_error = None;
                },
                Err(e) => {
                    *last_error = Some(e);
                },
            },
        }
    }

    /// Takes the outcome of sending a command to the remote outlet; gives
    /// whether a status query should follow (only after success).
    pub fn finish_command(&mut self, outcome: Result<(), String>) -> (query: bool)
        ensures
            query == (old(self).remote_view() && outcome is Ok),
            final(self).name_view() == old(self).name_view(),
            final(self).remote_view() == old(self).remote_view(),
            final(self).rated_view() == old(self).rated_view(),
            final(self).address_view() == old(self).address_view(),
            final(self).on_view() == old(self).on_view(),
            final(self).reported_watts_view() == old(self).reported_watts_view(),
            !old(self).remote_view() ==> *final(self) == *old(self),
            old(self).remote_view() ==> match outcome {
                Ok(_) => final(self).error_view() == old(self).error_view(),
                Err(e) => final(self).error_view() == Some(e@),
            },
    {
        match &mut self.link {
            Link::Local { .. } => false,
            Link::Remote { last_error, .. } => match outcome {
                Ok(()) => true,
                Err(e) => {
                    *last_error = Some(e);
                    false
                },
            },
        }
    }

    /// Switches the socket to `on`: a local socket switches at once; for a
    /// remote one the command to send is given back and nothing changes yet.
    fn switch(&mut self, on: bool) -> (command: Option<Command>)
        ensures
            final(self).name_view() == old(self).name_view(),
            final(self).remote_view() == old(self).remote_view(),
            final(self).rated_view() == old(self).rated_view(),
            final(self).address_view() == old(self).address_view(),
            final(self).error_view() == old(self).error_view(),
            !old(self).remote_view() ==> final(self).on_view() == on && command is None,
            old(self).remote_view() ==> *final(self) == *old(self) && command == Some(
                if on {
                    Command::SetOn
                } else {
                    Command::SetOff
                },
            ),
    {
        match &mut self.link {
            Link::Local { is_on, .. } => {
                *is_on = on;
                None
            },
            Link::Remote { .. } => {
                if on {
                    Some(Command::SetOn)
                } else {
                    Some(Command::SetOff)
                }
            },
        }
    }

    /// Turns the socket on; for a remote socket gives the command to send.
    pub fn turn_on(&mut self) -> (command: Option<Command>)
        ensures
            final(self).name_view() == old(self).name_view(),
            final(self).remote_view() == old(self).remote_view(),
            final(self).rated_view() == old(self).rated_view(),
            final(self).address_view() == old(self).address_view(),
            final(self).error_view() == old(self).error_view(),
            !old(self).remote_view() ==> final(self).on_view() && command is None,
            old(self).remote_view() ==> *final(self) == *old(self) && command == Some(
                Command::SetOn,
            ),
    {
        self.switch(true)
    }

    /// Turns the socket off; for a remote socket gives the command to send.
    pub fn turn_off(&mut self) -> (command: Option<Command>)
        ensures
            final(self).name_view() == old(self).name_view(),
            final(self).remote_view() == old(self).remote_view(),
            final(self).rated_view() == old(self).rated_view(),
            final(self).address_view() == old(self).address_view(),
            final(self).error_view() == old(self).error_view(),
            !old(self).remote_view() ==> !final(self).on_view() && command is None,
            old(self).remote_view() ==> *final(self) == *old(self) && command == Some(
                Command::SetOff,
            ),
    {
        self.switch(false)
    }

    /// Whether the socket is on (for a remote outlet: as last reported).
    pub fn is_on(&self) -> (r: bool)
        ensures
            r == self.on_view(),
    {
        match &self.link {
            Link::Local { is_on, .. } => *is_on,
            Link::Remote { is_on, .. } => *is_on,
        }
    }

    /// The power drawn now: zero when off, otherwise the configured power;
    /// for a remote outlet the reported watts (zero if negative or NaN).
    pub fn power(&self) -> (r: Power)
        ensures
            r@ == self.power_view(),
    {
        match &self.link {
            Link::Local { is_on, power } => {
                if *is_on {
                    *power
                } else {
                    Power::zero()
                }
            },
            Link::Remote { watts, .. } => match Power::new(*watts) {
                Ok(p) => p,
                Err(_) => Power::default(),
            },
        }
    }

    /// The text `Socket(<name>)`.
    pub fn label(&self) -> (r: String)
        ensures
            r@ == "Socket("@ + self.name_view() + ")"@,
    {
        let mut s = String::new();
        s.append("Socket(");
        s.append(self.name.as_str());
        s.append(")");
        s
    }
}

impl Default for Socket {
    /// A local socket named `Socket`, off, with zero power.
    fn default() -> (r: Socket)
        ensures
            r.name_view() == "Socket"@,
            !r.remote_view(),
            !r.on_view(),
            r.rated_view() == 0,
            r.error_view() is None,
    {
        Socket::new("Socket".to_string(), false, Power::default())
    }
}

/// A local socket has no exchange, so no error of one.
pub proof fn lemma_local_has_no_error(s: Socket)
    requires
        !s.remote_view(),
    ensures
        s.error_view() is None,
        s.reported_watts_view() == 0,
{
}

/// `b` is a copy of `a`: everything a socket shows is the same.
pub open spec fn socket_copy(a: &Socket, b: &Socket) -> bool {
    &&& a.name_view() == b.name_view()
    &&& a.remote_view() == b.remote_view()
    &&& a.on_view() == b.on_view()
    &&& a.rated_view() == b.rated_view()
    &&& a.reported_watts_view() == b.reported_watts_view()
    &&& a.address_view() == b.address_view()
    &&& a.error_view() == b.error_view()
    &&& a.wf() == b.wf()
}

impl Clone for Socket {
    /// A copy: same name, link, switch, powers, address and last error.
    fn clone(&self) -> (r: Socket)
        ensures
            socket_copy(self, &r),
    {
        let link = match &self.link {
            Link::Local { is_on, power } => Link::Local { is_on: *is_on, power: *power },
            Link::Remote { addr, rated, is_on, watts, last_error } => Link::Remote {
                addr: addr.clone(),
                rated: *rated,
                is_on: *is_on,
                watts: *watts,
                last_error: match last_error {
                    Some(e) => Some(e.clone()),
                    None => None,
                },
            },
        };
        Socket { name: self.name.clone(), link }
    }
}

/// Two sockets are equal when their names are; then two local sockets when
/// their switch states and powers are, two remote ones when their addresses
/// and rated powers are; a local one never equals a remote one.
pub open spec fn socket_eq(a: &Socket, b: &Socket) -> bool {
    &&& a.name_view() == b.name_view()
    &&& a.remote_view() == b.remote_view()
    &&& if a.remote_view() {
        a.address_view() == b.address_view() && float_eq(a.rated_view(), b.rated_view())
    } else {
        a.on_view() == b.on_view() && float_eq(a.rated_view(), b.rated_view())
    }
}

impl PartialEq for Socket {
    fn eq(&self, other: &Socket) -> (r: bool) {
        if self.name != other.name {
            return false;
        }
        match (&self.link, &other.link) {
            (Link::Local { is_on: a, power: p1 }, Link::Local { is_on: b, power: p2 }) => {
                *a == *b && *p1 == *p2
            },
            (Link::Remote { addr: x, rated: r1, .. }, Link::Remote { addr: y, rated: r2, .. }) => {
                *x == *y && *r1 == *r2
            },
            _ => false,
        }
    }
}

impl vstd::std_specs::cmp::PartialEqSpecImpl for Socket {
    open spec fn obeys_eq_spec() -> bool {
        true
    }

    open spec fn eq_spec(&self, other: &Socket) -> bool {
        socket_eq(self, other)
    }
}

impl DeviceInfo for Socket {
    open spec fn device_name(&self) -> Seq<char> {
        self.name_view()
    }

    open spec fn is_state_text(&self, text: Seq<char>) -> bool {
        text == self.state_text()
    }

    fn name(&self) -> (r: &str) {
        self.name.as_str()
    }

    fn state(&self) -> (r: String) {
        let mut s = String::new();
        s.append("Socket '");
        s.append(self.name.as_str());
        s.append("': ");
        if self.is_on() {
            s.append("on");
        } else {
            s.append("off");
        }
        s.append(" (power: ");
        let watts = one_decimal(self.power().watts());
        s.append(watts.as_str());
        s.append(" W)");
        assert(s@ == "Socket '"@ + self.name_view() + "': "@ + on_off_text(self.on_view()) + " (power: "@ + one_decimal_text(self.power_view()) + " W)"@);
        match self.last_error() {
            Some(e) => {
                s.append(" [error: ");
                s.append(e.as_str());
                s.append("]");
            },
            None => {},
        }
        assert(s@ == self.state_text());
        assert(self.is_state_text(s@));
        s
    }
}

impl Report for Socket {
    open spec fn is_reportable(&self) -> bool {
        true
    }

    open spec fn is_report_text(&self, text: Seq<char>) -> bool {
        text == self.state_text() + "\n"@
    }

    fn report(&self) -> (r: String) {
        let mut s = self.state();
        assert(s@ == self.state_text());
        s.append("\n");
        assert(s@ == self.state_text() + "\n"@);
        assert(self.is_report_text(s@));
        s
    }
}

} // verus!
