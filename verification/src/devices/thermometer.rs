//! [`Thermometer`]: a local reading, or the last reading that arrived over UDP.
//!
//! A UDP thermometer shares a feed cell with whatever receives its datagrams;
//! that receiver stores each reading it decodes (see
//! [`crate::wire::decode_temperature_celsius`]). Clones share the feed; the
//! `link` number names the feed, so that two thermometers are equal when they
//! read the same feed.

use std::sync::{Arc, Mutex};
use vstd::prelude::*;

use crate::decimal::{one_decimal, one_decimal_text};
use crate::devices::device::DeviceInfo;
use crate::report::Report;
use crate::types::{float_eq, Temperature};

verus! {

/// `std::sync::Mutex`, held opaquely: the feed cell of a UDP thermometer.
#[verifier::external_type_specification]
#[verifier::external_body]
#[verifier::reject_recursive_types(T)]
pub struct ExMutex<T: ?Sized>(Mutex<T>);

/// Reads the feed cell (`Mutex::lock`, then the stored value); a poisoned
/// lock reads as no reading. What it gives depends on when datagrams
/// arrived, so nothing is stated of it.
#[verifier::external_body]
fn read_feed(feed: &Mutex<Option<u32>>) -> (r: Option<u32>) {
    match feed.lock() {
        Ok(guard) => *guard,
        Err(_) => None,
    }
}

/// The state line of a thermometer showing `celsius`.
pub open spec fn thermometer_state_text(name: Seq<char>, celsius: u32) -> Seq<char> {
    "Thermometer '"@ + name + "': "@ + one_decimal_text(celsius) + "\u{b0}C"@
}

/// Where a thermometer's reading comes from.
#[derive(Debug)]
enum Source {
    /// A fixed local reading.
    Local { temperature: Temperature },
    /// The last reading in the shared feed; `initial` until one arrives.
    Udp { initial: Temperature, link: u64, feed: Arc<Mutex<Option<u32>>> },
}

/// Thermometer: local value or the last reading fed over UDP.
#[derive(Debug)]
pub struct Thermometer {
    name: String,
    source: Source,
}

impl Thermometer {
    /// The thermometer's name.
    pub closed spec fn name_view(&self) -> Seq<char> {
        self.name@
    }

    /// The thermometer reads a UDP feed.
    pub closed spec fn udp_view(&self) -> bool {
        self.source is Udp
    }

    /// The local reading, or the reading shown before any datagram arrives.
    pub closed spec fn base_view(&self) -> u32 {
        match self.source {
            Source::Local { temperature } => temperature@,
            Source::Udp { initial, .. } => initial@,
        }
    }

    /// The number naming the feed of a UDP thermometer.
    pub closed spec fn link_view(&self) -> u64 {
        match self.source {
            Source::Local { .. } => 0,
            Source::Udp { link, .. } => link,
        }
    }

    /// `celsius` is a reading this thermometer can show: exactly its local
    /// reading, or, over UDP, whatever arrived (or the initial reading).
    pub open spec fn may_show(&self, celsius: u32) -> bool {
        !self.udp_view() ==> celsius == self.base_view()
    }

    /// A local thermometer (no network).
    pub fn new(name: String, temperature: Temperature) -> (r: Thermometer)
        ensures
            r.name_view() == name@,
            !r.udp_view(),
            r.base_view() == temperature@,
    {
        Thermometer { name, source: Source::Local { temperature } }
    }

    /// A thermometer showing the last reading stored in `feed` (as a bit
    /// pattern of degrees Celsius), and `initial` until there is one.
    /// `link` names the feed.
    pub fn from_feed(
        name: String,
        initial: Temperature,
        link: u64,
        feed: Arc<Mutex<Option<u32>>>,
    ) -> (r: Thermometer)
        ensures
            r.name_view() == name@,
            r.udp_view(),
            r.base_view() == initial@,
            r.link_view() == link,
    {
        Thermometer { name, source: Source::Udp { initial, link, feed } }
    }

    /// Whether the thermometer reads a UDP feed.
    pub fn is_udp(&self) -> (r: bool)
        ensures
            r == self.udp_view(),
    {
        match &self.source {
            Source::Local { .. } => false,
            Source::Udp { .. } => true,
        }
    }

    /// `true` for a local thermometer; over UDP, whether a reading has arrived.
    pub fn has_udp_reading(&self) -> (r: bool)
        ensures
            !self.udp_view() ==> r,
    {
        match &self.source {
            Source::Local { .. } => true,
            Source::Udp { feed, .. } => read_feed(feed).is_some(),
        }
    }

    /// The reading shown when the feed holds `fed` (the bit pattern of the
    /// last reading that arrived, if any): a local thermometer shows its own
    /// reading; a UDP one shows the fed reading, or its initial one while
    /// none has arrived.
    pub open spec fn shown_reading(&self, fed: Option<u32>) -> u32 {
        if self.udp_view() {
            match fed {
                Some(bits) => bits,
                None => self.base_view(),
            }
        } else {
            self.base_view()
        }
    }

    /// The reading shown when the feed holds `fed`.
    pub fn reading_with(&self, fed: Option<u32>) -> (r: Temperature)
        ensures
            r@ == self.shown_reading(fed),
    {
        match &self.source {
            Source::Local { temperature } => *temperature,
            Source::Udp { initial, .. } => match fed {
                Some(bits) => Temperature::celsius(bits),
                None => *initial,
            },
        }
    }

    /// The current reading: the local one, or the last one fed over UDP
    /// (the initial reading until one arrives).
    pub fn temperature(&self) -> (r: Temperature)
        ensures
            self.may_show(r@),
    {
        match &self.source {
            Source::Local { .. } => self.reading_with(None),
            Source::Udp { feed, .. } => self.reading_with(read_feed(feed)),
        }
    }
}

impl Default for Thermometer {
    /// A local thermometer named `Thermometer` at room temperature.
    fn default() -> (r: Thermometer)
        ensures
            r.name_view() == "Thermometer"@,
            !r.udp_view(),
            r.base_view() == crate::types::TWENTY_BITS,
    {
        Thermometer::new("Thermometer".to_string(), Temperature::default())
    }
}

/// `b` is a copy of `a`: same name, same source, same reading before any
/// datagram, same feed.
pub open spec fn thermometer_copy(a: &Thermometer, b: &Thermometer) -> bool {
    &&& a.name_view() == b.name_view()
    &&& a.udp_view() == b.udp_view()
    &&& a.base_view() == b.base_view()
    &&& a.link_view() == b.link_view()
}

impl Clone for Thermometer {
    /// A copy; a UDP thermometer's copy shares its feed.
    fn clone(&self) -> (r: Thermometer)
        ensures
            thermometer_copy(self, &r),
    {
        let source = match &self.source {
            Source::Local { temperature } => Source::Local { temperature: *temperature },
            Source::Udp { initial, link, feed } => Source::Udp {
                initial: *initial,
                link: *link,
                feed: Arc::clone(feed),
            },
        };
        Thermometer { name: self.name.clone(), source }
    }
}

/// Two thermometers are equal when their names are; then two local ones when
/// their readings are, two UDP ones when they read the same feed; a local one
/// never equals a UDP one.
pub open spec fn thermometer_eq(a: &Thermometer, b: &Thermometer) -> bool {
    &&& a.name_view() == b.name_view()
    &&& a.udp_view() == b.udp_view()
    &&& if a.udp_view() {
        a.link_view() == b.link_view()
    } else {
        float_eq(a.base_view(), b.base_view())
    }
}

impl PartialEq for Thermometer {
    fn eq(&self, other: &Thermometer) -> (r: bool) {
        if self.name != other.name {
            return false;
        }
        match (&self.source, &other.source) {
            (Source::Local { temperature: a }, Source::Local { temperature: b }) => *a == *b,
            (Source::Udp { link: x, .. }, Source::Udp { link: y, .. }) => *x == *y,
            _ => false,
        }
    }
}

impl vstd::std_specs::cmp::PartialEqSpecImpl for Thermometer {
    open spec fn obeys_eq_spec() -> bool {
        true
    }

    open spec fn eq_spec(&self, other: &Thermometer) -> bool {
        thermometer_eq(self, other)
    }
}

impl DeviceInfo for Thermometer {
    open spec fn device_name(&self) -> Seq<char> {
        self.name_view()
    }

    open spec fn is_state_text(&self, text: Seq<char>) -> bool {
        exists|c: u32| self.may_show(c) && text == thermometer_state_text(self.name_view(), c)
    }

    fn name(&self) -> (r: &str) {
        self.name.as_str()
    }

    fn state(&self) -> (r: String) {
        let t = self.temperature();
        let mut s = String::new();
        s.append("Thermometer '");
        s.append(self.name.as_str());
        s.append("': ");
        let c = one_decimal(t.as_celsius());
        s.append(c.as_str());
        s.append("\u{b0}C");
        assert(s@ == thermometer_state_text(self.name_view(), t@));
        assert(self.may_show(t@));
        assert(self.is_state_text(s@));
        s
    }
}

impl Report for Thermometer {
    open spec fn is_reportable(&self) -> bool {
        true
    }

    open spec fn is_report_text(&self, text: Seq<char>) -> bool {
        exists|s: Seq<char>| self.is_state_text(s) && text == s + "\n"@
    }

    fn report(&self) -> (r: String) {
        let mut s = self.state();
        let ghost state = s@;
        s.append("\n");
        assert(self.is_state_text(state) && s@ == state + "\n"@);
        assert(self.is_report_text(s@));
        s
    }
}

} // verus!
