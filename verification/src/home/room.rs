//! [`Room`]: devices keyed by text, with observers of device additions.

use vstd::prelude::*;

use crate::devices::Device;
use crate::devices::device::{device_copying, device_eq};
use crate::keyed::{ascending, ascending_keys, entries_eq_by, keys_of, maps_eq_by, KeyedMap};
use crate::report::Report;

verus! {

/// Observer for device additions in a [`Room`].
///
/// Implementations must be `Send + Sync` so that a room (and hence a home)
/// can be shared across threads.
pub trait Subscriber: Send + Sync {
    /// Whether this subscriber keeps a record of the devices it is told
    /// about (see [`Subscriber::heard`]). By default it keeps none.
    open spec fn keeps_record(&self) -> bool {
        false
    }

    /// The devices this subscriber has been told about, oldest first, for a
    /// subscriber that keeps a record.
    open spec fn heard(&self) -> Seq<Device> {
        Seq::empty()
    }

    /// Called with each device before it is added to the room; a subscriber
    /// that keeps a record adds the device to it.
    fn on_event(&mut self, device: &Device)
        ensures
            old(self).keeps_record() ==> final(self).keeps_record() && final(self).heard()
                == old(self).heard().push(*device),
    ;
}

/// `after` is `before` once told about `device`: a subscriber that keeps a
/// record has exactly that device added to it.
pub open spec fn told(before: &Box<dyn Subscriber>, after: &Box<dyn Subscriber>, device: Device) -> bool {
    before.keeps_record() ==> after.keeps_record() && after.heard() == before.heard().push(device)
}

/// Device equality as a spec function value.
pub open spec fn device_equality() -> spec_fn(Device, Device) -> bool {
    |a: Device, b: Device| device_eq(&a, &b)
}

/// The text of `parts`, each after `prefix`, one after the other.
pub open spec fn prefixed(prefix: Seq<char>, parts: Seq<Seq<char>>) -> Seq<char>
    decreases parts.len(),
{
    if parts.len() == 0 {
        seq![]
    } else {
        prefixed(prefix, parts.drop_last()) + prefix + parts.last()
    }
}

/// The report of a room named `name` whose devices, in ascending key order,
/// report `parts`.
pub open spec fn room_report_text(name: Seq<char>, parts: Seq<Seq<char>>) -> Seq<char> {
    "  Room '"@ + name + "':\n"@ + if parts.len() == 0 {
        "    (no devices)\n"@
    } else {
        prefixed("    "@, parts)
    }
}

/// `parts[i]` is a report of the device under `keys[i]`, for every `i`.
pub open spec fn device_reports(
    devices: Map<Seq<char>, Device>,
    keys: Seq<Seq<char>>,
    parts: Seq<Seq<char>>,
) -> bool {
    &&& parts.len() == keys.len()
    &&& forall|i: int| 0 <= i < keys.len() ==> devices[keys[i]].is_report_text(#[trigger] parts[i])
}

/// Room containing smart devices keyed by text.
pub struct Room {
    name: String,
    devices: KeyedMap<Device>,
    subscribers: Vec<Box<dyn Subscriber>>,
}

impl Room {
    /// The devices are kept in ascending key order.
    pub closed spec fn wf(&self) -> bool {
        self.devices.wf()
    }

    /// The room's display name.
    pub closed spec fn name_view(&self) -> Seq<char> {
        self.name@
    }

    /// The devices by key.
    pub closed spec fn devices_view(&self) -> Map<Seq<char>, Device> {
        self.devices@
    }

    /// The subscribers, in the order they subscribed.
    pub closed spec fn subscribers_view(&self) -> Seq<Box<dyn Subscriber>> {
        self.subscribers@
    }

    /// Two rooms hold equal devices under the same keys at the same positions
    /// of their key order.
    pub closed spec fn same_devices(&self, other: &Room) -> bool {
        entries_eq_by(self.devices.pairs(), other.devices.pairs(), device_equality())
    }

    /// For well-formed rooms, holding equal devices at the same positions is
    /// holding the same keys with equal devices under each.
    pub proof fn lemma_same_devices(&self, other: &Room)
        requires
            self.wf(),
            other.wf(),
        ensures
            self.same_devices(other) == maps_eq_by(self.devices_view(), other.devices_view(), device_equality()),
    {
        self.devices.lemma_entries_eq(&other.devices, device_equality());
    }

    /// A well-formed room has finitely many devices, and its keys in
    /// ascending order are strictly ascending, one per device.
    pub proof fn lemma_devices_finite(&self)
        requires
            self.wf(),
        ensures
            self.devices_view().dom().finite(),
            ascending(ascending_keys(self.devices_view())),
            ascending_keys(self.devices_view()).len() == self.devices_view().len(),
    {
        self.devices.lemma_enumerates();
    }

    /// Whether the two rooms hold equal devices under the same keys at the
    /// same positions.
    fn devices_match(&self, other: &Room) -> (r: bool)
        ensures
            r == self.same_devices(other),
    {
        let n = self.devices.size();
        if n != other.devices.size() {
            return false;
        }
        let mut i: usize = 0;
        while i < n
            invariant
                n == self.devices.pairs().len(),
                n == other.devices.pairs().len(),
                i <= n,
                forall|j: int|
                    0 <= j < i ==> #[trigger] self.devices.pairs()[j].0@ == other.devices.pairs()[j].0@
                        && device_eq(&self.devices.pairs()[j].1, &other.devices.pairs()[j].1),
            decreases n - i,
        {
            let a = self.devices.slot(i);
            let b = other.devices.slot(i);
            if !(a.0 == b.0) {
                return false;
            }
            if !(a.1 == b.1) {
                return false;
            }
            i = i + 1;
        }
        true
    }

    /// Creates a room with the given display name and devices.
    pub fn new(name: String, devices: KeyedMap<Device>) -> (r: Room)
        requires
            devices.wf(),
        ensures
            r.wf(),
            r.name_view() == name@,
            r.devices_view() == devices@,
            r.subscribers_view().len() == 0,
    {
        Room { name, devices, subscribers: Vec::new() }
    }

    /// The device under `key`, if present.
    pub fn device(&self, key: &str) -> (r: Option<&Device>)
        requires
            self.wf(),
        ensures
            match r {
                Some(d) => self.devices_view().contains_key(key@) && *d == self.devices_view()[key@],
                None => !self.devices_view().contains_key(key@),
            },
    {
        self.devices.get(key)
    }

    /// The device under `key`, if present, for change in place.
    pub fn device_mut(&mut self, key: &str) -> (r: Option<&mut Device>)
        requires
            old(self).wf(),
        ensures
            final(self).wf(),
            final(self).name_view() == old(self).name_view(),
            match r {
                Some(d) => {
                    &&& old(self).devices_view().contains_key(key@)
                    &&& *d == old(self).devices_view()[key@]
                    &&& final(self).devices_view() == old(self).devices_view().insert(key@, *final(d))
                },
                None => {
                    &&& !old(self).devices_view().contains_key(key@)
                    &&& final(self).devices_view() == old(self).devices_view()
                },
            },
    {
        self.devices.get_mut(key)
    }

    /// Tells every subscriber about `device`, in the order they subscribed.
    fn notify_subscribers(&mut self, device: &Device)
        ensures
            final(self).name == old(self).name,
            final(self).devices == old(self).devices,
            final(self).subscribers@.len() == old(self).subscribers@.len(),
            forall|j: int|
                0 <= j < old(self).subscribers@.len() ==> told(
                    &old(self).subscribers@[j],
                    &#[trigger] final(self).subscribers@[j],
                    *device,
                ),
    {
        let n = self.subscribers.len();
        let mut i: usize = 0;
        while i < n
            invariant
                n == self.subscribers@.len(),
                n == old(self).subscribers@.len(),
                i <= n,
                self.name == old(self).name,
                self.devices == old(self).devices,
                forall|j: int|
                    0 <= j < i ==> told(&old(self).subscribers@[j], &#[trigger] self.subscribers@[j], *device),
                forall|j: int| i <= j < n ==> #[trigger] self.subscribers@[j] == old(self).subscribers@[j],
            decreases n - i,
        {
            self.subscribers[i].on_event(device);
            i = i + 1;
        }
    }

    /// Puts `device` under `key`, after telling every subscriber about it;
    /// gives back the device it replaces, if any.
    pub fn insert_device(&mut self, key: String, device: Device) -> (r: Option<Device>)
        requires
            old(self).wf(),
        ensures
            final(self).wf(),
            final(self).name_view() == old(self).name_view(),
            final(self).devices_view() == old(self).devices_view().insert(key@, device),
            final(self).subscribers_view().len() == old(self).subscribers_view().len(),
            forall|j: int|
                0 <= j < old(self).subscribers_view().len() ==> told(
                    &old(self).subscribers_view()[j],
                    &#[trigger] final(self).subscribers_view()[j],
                    device,
                ),
            final(self).devices_view().dom().finite(),
            final(self).devices_view().len() == old(self).devices_view().len() + (if r is Some {
                0int
            } else {
                1int
            }),
            match r {
                Some(d) => old(self).devices_view().contains_key(key@) && d == old(self).devices_view()[key@],
                None => !old(self).devices_view().contains_key(key@),
            },
    {
        proof {
            self.devices.lemma_enumerates();
        }
        self.notify_subscribers(&device);
        self.devices.insert(key, device)
    }

    /// Removes the device under `key`; gives it back if it was there.
    pub fn remove_device(&mut self, key: &str) -> (r: Option<Device>)
        requires
            old(self).wf(),
        ensures
            final(self).wf(),
            final(self).name_view() == old(self).name_view(),
            final(self).devices_view() == old(self).devices_view().remove(key@),
            final(self).devices_view().dom().finite(),
            final(self).devices_view().len() == old(self).devices_view().len() - (if r is Some {
                1int
            } else {
                0int
            }),
            match r {
                Some(d) => old(self).devices_view().contains_key(key@) && d == old(self).devices_view()[key@],
                None => !old(self).devices_view().contains_key(key@),
            },
    {
        proof {
            self.devices.lemma_enumerates();
        }
        self.devices.remove(key)
    }

    /// The room's display name.
    pub fn name(&self) -> (r: &str)
        ensures
            r@ == self.name_view(),
    {
        self.name.as_str()
    }

    /// The number of devices in the room.
    pub fn device_count(&self) -> (r: usize)
        requires
            self.wf(),
        ensures
            r == self.devices_view().len(),
    {
        self.devices.len()
    }

    /// The `(key, device)` pairs, in ascending key order.
    pub fn devices(&self) -> (r: &[(String, Device)])
        requires
            self.wf(),
        ensures
            keys_of(r@) == ascending_keys(self.devices_view()),
            ascending(keys_of(r@)),
            r@.len() == self.devices_view().len(),
            forall|i: int|
                0 <= i < r@.len() ==> self.devices_view().contains_key(#[trigger] r@[i].0@)
                    && self.devices_view()[r@[i].0@] == r@[i].1,
    {
        self.devices.entries()
    }

    /// Subscribes to device-addition events for this room.
    pub fn subscribe<S: Subscriber + 'static>(&mut self, subscriber: S)
        requires
            old(self).wf(),
        ensures
            final(self).wf(),
            final(self).name_view() == old(self).name_view(),
            final(self).devices_view() == old(self).devices_view(),
            final(self).subscribers_view().len() == old(self).subscribers_view().len() + 1,
            final(self).subscribers_view().take(old(self).subscribers_view().len() as int)
                == old(self).subscribers_view(),
    {
        let boxed: Box<dyn Subscriber> = Box::new(subscriber);
        let ghost before = self.subscribers@;
        self.subscribers.push(boxed);
        proof {
            vstd::seq::axiom_seq_push_len(before, boxed);
            assert forall|j: int| 0 <= j < before.len() implies self.subscribers@[j] == before[j] by {
                vstd::seq::axiom_seq_push_index_different(before, boxed, j);
            }
            assert(self.subscribers@.take(before.len() as int) =~= before);
        }
    }
}

impl Default for Room {
    /// An empty room named `Room`.
    fn default() -> (r: Room)
        ensures
            r.wf(),
            r.name_view() == "Room"@,
            r.devices_view() == Map::<Seq<char>, Device>::empty(),
            r.subscribers_view().len() == 0,
    {
        Room::new("Room".to_string(), KeyedMap::new())
    }
}

/// `b` is a copy of `a`: the same name, the same keys, a copy of each device.
pub open spec fn room_copy(a: &Room, b: &Room) -> bool {
    &&& b.name_view() == a.name_view()
    &&& b.wf() == a.wf()
    &&& b.devices_view().dom() == a.devices_view().dom()
    &&& a.wf() ==> maps_eq_by(a.devices_view(), b.devices_view(), device_copying())
}

/// Copying as a spec function value.
pub open spec fn room_copying() -> spec_fn(Room, Room) -> bool {
    |a: Room, b: Room| room_copy(&a, &b)
}

impl Clone for Room {
    /// The same name, and a copy of each device under the same key;
    /// subscribers are not cloned.
    fn clone(&self) -> (r: Room)
        ensures
            room_copy(self, &r),
            r.subscribers_view().len() == 0,
    {
        let devices = self.devices.clone();
        proof {
            self.devices.lemma_same_keys(&devices);
            let a = self.devices.pairs();
            let b = devices.pairs();
            assert(a.len() == keys_of(a).len() && b.len() == keys_of(b).len());
            assert forall|i: int| 0 <= i < a.len() implies #[trigger] a[i].0@ == b[i].0@
                && device_copying()(a[i].1, b[i].1) by {
                assert(keys_of(a)[i] == keys_of(b)[i]);
                assert(cloned::<Device>(a[i].1, b[i].1));
                if a[i].1 != b[i].1 {
                    assert(vstd::pervasive::strictly_cloned::<Device>(a[i].1, b[i].1));
                }
            }
            assert(entries_eq_by(self.devices.pairs(), devices.pairs(), device_copying()));
            if self.devices.wf() {
                self.devices.lemma_entries_eq(&devices, device_copying());
            }
        }
        Room { name: self.name.clone(), devices, subscribers: Vec::new() }
    }
}

/// Rooms are equal when their names are and they hold the same keys with
/// equal devices (subscribers are not compared).
pub open spec fn room_eq(a: &Room, b: &Room) -> bool {
    a.name_view() == b.name_view() && a.same_devices(b)
}

impl Room {
    /// Whether the rooms have the same name and equal devices under the same keys.
    pub fn equals(&self, other: &Room) -> (r: bool)
        ensures
            r == room_eq(self, other),
    {
        self.name == other.name && self.devices_match(other)
    }
}

impl PartialEq for Room {
    fn eq(&self, other: &Room) -> (r: bool) {
        self.equals(other)
    }
}

impl vstd::std_specs::cmp::PartialEqSpecImpl for Room {
    open spec fn obeys_eq_spec() -> bool {
        true
    }

    open spec fn eq_spec(&self, other: &Room) -> bool {
        room_eq(self, other)
    }
}

impl Report for Room {
    open spec fn is_reportable(&self) -> bool {
        self.wf()
    }

    open spec fn is_report_text(&self, text: Seq<char>) -> bool {
        exists|parts: Seq<Seq<char>>|
            device_reports(self.devices_view(), ascending_keys(self.devices_view()), parts) && text
                == room_report_text(self.name_view(), parts)
    }

    fn report(&self) -> (r: String) {
        proof {
            self.devices.lemma_enumerates();
        }
        let mut s = String::new();
        s.append("  Room '");
        s.append(self.name.as_str());
        s.append("':\n");
        let ghost header = s@;
        let ghost devs = self.devices@;
        let ghost keys = ascending_keys(devs);
        let ghost mut parts: Seq<Seq<char>> = seq![];
        if self.devices.is_empty() {
            s.append("    (no devices)\n");
        } else {
            let entries = self.devices.entries();
            let n = entries.len();
            let mut i: usize = 0;
            while i < n
                invariant
                    n == entries@.len(),
                    i <= n,
                    keys_of(entries@) == keys,
                    forall|j: int| 0 <= j < n ==> devs.contains_key(#[trigger] entries@[j].0@) && devs[entries@[j].0@] == entries@[j].1,
                    parts.len() == i,
                    forall|j: int| 0 <= j < i ==> entries@[j].1.is_report_text(#[trigger] parts[j]),
                    s@ == header + prefixed("    "@, parts),
                decreases n - i,
            {
                let line = entries[i].1.report();
                s.append("    ");
                s.append(line.as_str());
                proof {
                    let old_parts = parts;
                    parts = parts.push(line@);
                    assert(parts.drop_last() =~= old_parts);
                }
                i = i + 1;
            }
            proof {
                assert forall|j: int| 0 <= j < keys.len() implies devs[keys[j]].is_report_text(#[trigger] parts[j]) by {
                    assert(keys[j] == entries@[j].0@);
                }
            }
        }
        assert(device_reports(devs, keys, parts));
        assert(s@ == room_report_text(self.name_view(), parts));
        assert(self.is_report_text(s@));
        s
    }
}

} // verus!
