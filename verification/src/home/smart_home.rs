//! [`SmartHome`]: rooms keyed by text, device lookup across rooms, and the
//! home report.

use vstd::prelude::*;

use crate::devices::Device;
use crate::error::SmartHomeError;
use crate::home::room::{prefixed, room_copying, room_eq, Room};
use crate::keyed::{ascending, ascending_keys, entries_eq_by, keys_of, maps_eq_by, KeyedMap};
use crate::report::Report;

verus! {

/// Room equality as a spec function value.
pub open spec fn room_equality() -> spec_fn(Room, Room) -> bool {
    |a: Room, b: Room| room_eq(&a, &b)
}

/// The report of a home named `name` whose rooms, in ascending key order,
/// report `parts`.
pub open spec fn home_report_text(name: Seq<char>, parts: Seq<Seq<char>>) -> Seq<char> {
    "Smart home '"@ + name + "':\n"@ + (if parts.len() == 0 {
        "  (no rooms)\n"@
    } else {
        prefixed(seq![], parts)
    }) + "\n"@
}

/// `parts[i]` is a report of the room under `keys[i]`, for every `i`.
pub open spec fn room_reports(
    rooms: Map<Seq<char>, Room>,
    keys: Seq<Seq<char>>,
    parts: Seq<Seq<char>>,
) -> bool {
    &&& parts.len() == keys.len()
    &&& forall|i: int| 0 <= i < keys.len() ==> rooms[keys[i]].is_report_text(#[trigger] parts[i])
}

/// Every room of the map is well formed.
pub open spec fn rooms_wf(rooms: Map<Seq<char>, Room>) -> bool {
    forall|k: Seq<char>| #[trigger] rooms.contains_key(k) ==> rooms[k].wf()
}

/// Smart home: rooms keyed by text.
pub struct SmartHome {
    name: String,
    rooms: KeyedMap<Room>,
}

impl SmartHome {
    /// The rooms are kept in ascending key order and each is well formed.
    pub closed spec fn wf(&self) -> bool {
        self.rooms.wf() && rooms_wf(self.rooms@)
    }

    /// The home's name.
    pub closed spec fn name_view(&self) -> Seq<char> {
        self.name@
    }

    /// The rooms by key.
    pub closed spec fn rooms_view(&self) -> Map<Seq<char>, Room> {
        self.rooms@
    }

    /// Two homes hold equal rooms under the same keys at the same positions
    /// of their key order.
    pub closed spec fn same_rooms(&self, other: &SmartHome) -> bool {
        entries_eq_by(self.rooms.pairs(), other.rooms.pairs(), room_equality())
    }

    /// For well-formed homes, holding equal rooms at the same positions is
    /// holding the same keys with equal rooms under each.
    pub proof fn lemma_same_rooms(&self, other: &SmartHome)
        requires
            self.wf(),
            other.wf(),
        ensures
            self.same_rooms(other) == maps_eq_by(self.rooms_view(), other.rooms_view(), room_equality()),
    {
        self.rooms.lemma_entries_eq(&other.rooms, room_equality());
    }

    /// Creates a home with the given name and rooms.
    pub fn new(name: String, rooms: KeyedMap<Room>) -> (r: SmartHome)
        requires
            rooms.wf(),
            rooms_wf(rooms@),
        ensures
            r.wf(),
            r.name_view() == name@,
            r.rooms_view() == rooms@,
    {
        SmartHome { name, rooms }
    }

    /// The room under `key`, if present.
    pub fn room(&self, key: &str) -> (r: Option<&Room>)
        requires
            self.wf(),
        ensures
            match r {
                Some(room) => {
                    &&& self.rooms_view().contains_key(key@)
                    &&& *room == self.rooms_view()[key@]
                    &&& room.wf()
                },
                None => !self.rooms_view().contains_key(key@),
            },
    {
        self.rooms.get(key)
    }

    /// The room under `key`, if present, for change in place. The home stays
    /// well formed when the room does.
    pub fn room_mut(&mut self, key: &str) -> (r: Option<&mut Room>)
        requires
            old(self).wf(),
        ensures
            final(self).name_view() == old(self).name_view(),
            match r {
                Some(room) => {
                    &&& old(self).rooms_view().contains_key(key@)
                    &&& *room == old(self).rooms_view()[key@]
                    &&& room.wf()
                    &&& final(self).rooms_view() == old(self).rooms_view().insert(key@, *final(room))
                    &&& final(room).wf() ==> final(self).wf()
                },
                None => {
                    &&& !old(self).rooms_view().contains_key(key@)
                    &&& final(self).rooms_view() == old(self).rooms_view()
                    &&& final(self).wf()
                },
            },
    {
        self.rooms.get_mut(key)
    }

    /// Puts `room` under `key`; gives back the room it replaces, if any.
    pub fn insert_room(&mut self, key: String, room: Room) -> (r: Option<Room>)
        requires
            old(self).wf(),
            room.wf(),
        ensures
            final(self).wf(),
            final(self).name_view() == old(self).name_view(),
            final(self).rooms_view() == old(self).rooms_view().insert(key@, room),
            final(self).rooms_view().dom().finite(),
            final(self).rooms_view().len() == old(self).rooms_view().len() + (if r is Some {
                0int
            } else {
                1int
            }),
            match r {
                Some(x) => old(self).rooms_view().contains_key(key@) && x == old(self).rooms_view()[key@],
                None => !old(self).rooms_view().contains_key(key@),
            },
    {
        proof {
            self.rooms.lemma_enumerates();
        }
        let r = self.rooms.insert(key, room);
        assert(rooms_wf(self.rooms@));
        r
    }

    /// Removes the room under `key`; gives it back if it was there.
    pub fn remove_room(&mut self, key: &str) -> (r: Option<Room>)
        requires
            old(self).wf(),
        ensures
            final(self).wf(),
            final(self).name_view() == old(self).name_view(),
            final(self).rooms_view() == old(self).rooms_view().remove(key@),
            final(self).rooms_view().dom().finite(),
            final(self).rooms_view().len() == old(self).rooms_view().len() - (if r is Some {
                1int
            } else {
                0int
            }),
            match r {
                Some(x) => old(self).rooms_view().contains_key(key@) && x == old(self).rooms_view()[key@],
                None => !old(self).rooms_view().contains_key(key@),
            },
    {
        proof {
            self.rooms.lemma_enumerates();
        }
        let r = self.rooms.remove(key);
        assert(rooms_wf(self.rooms@));
        r
    }

    /// The device under `device_name` in the room under `room_name`; the error
    /// says whether the room or the device was missing.
    pub fn device(&self, room_name: &str, device_name: &str) -> (r: Result<&Device, SmartHomeError>)
        requires
            self.wf(),
        ensures
            match r {
                Ok(d) => {
                    &&& self.rooms_view().contains_key(room_name@)
                    &&& self.rooms_view()[room_name@].devices_view().contains_key(device_name@)
                    &&& *d == self.rooms_view()[room_name@].devices_view()[device_name@]
                },
                Err(SmartHomeError::RoomNotFound { room }) => {
                    &&& !self.rooms_view().contains_key(room_name@)
                    &&& room@ == room_name@
                },
                Err(SmartHomeError::DeviceNotFound { room, device }) => {
                    &&& self.rooms_view().contains_key(room_name@)
                    &&& !self.rooms_view()[room_name@].devices_view().contains_key(device_name@)
                    &&& room@ == room_name@
                    &&& device@ == device_name@
                },
            },
    {
        match self.rooms.get(room_name) {
            None => Err(SmartHomeError::RoomNotFound { room: room_name.to_string() }),
            Some(room) => match room.device(device_name) {
                Some(d) => Ok(d),
                None => Err(
                    SmartHomeError::DeviceNotFound {
                        room: room_name.to_string(),
                        device: device_name.to_string(),
                    },
                ),
            },
        }
    }

    /// Same as [`SmartHome::device`], for change in place.
    pub fn device_mut(&mut self, room_name: &str, device_name: &str) -> (r: Result<
        &mut Device,
        SmartHomeError,
    >)
        requires
            old(self).wf(),
        ensures
            final(self).wf(),
            final(self).name_view() == old(self).name_view(),
            match r {
                Ok(d) => {
                    &&& old(self).rooms_view().contains_key(room_name@)
                    &&& old(self).rooms_view()[room_name@].devices_view().contains_key(device_name@)
                    &&& *d == old(self).rooms_view()[room_name@].devices_view()[device_name@]
                    &&& final(self).rooms_view().dom() == old(self).rooms_view().dom()
                    &&& final(self).rooms_view()[room_name@].name_view() == old(self).rooms_view()[room_name@].name_view()
                    &&& final(self).rooms_view()[room_name@].devices_view()
                        == old(self).rooms_view()[room_name@].devices_view().insert(device_name@, *final(d))
                    &&& forall|k: Seq<char>|
                        k != room_name@ && #[trigger] old(self).rooms_view().contains_key(k)
                            ==> final(self).rooms_view()[k] == old(self).rooms_view()[k]
                },
                Err(SmartHomeError::RoomNotFound { room }) => {
                    &&& !old(self).rooms_view().contains_key(room_name@)
                    &&& room@ == room_name@
                    &&& final(self).rooms_view() == old(self).rooms_view()
                },
                Err(SmartHomeError::DeviceNotFound { room, device }) => {
                    &&& old(self).rooms_view().contains_key(room_name@)
                    &&& !old(self).rooms_view()[room_name@].devices_view().contains_key(device_name@)
                    &&& room@ == room_name@
                    &&& device@ == device_name@
                    &&& final(self).rooms_view().dom() == old(self).rooms_view().dom()
                    &&& final(self).rooms_view()[room_name@].name_view() == old(self).rooms_view()[room_name@].name_view()
                    &&& final(self).rooms_view()[room_name@].devices_view()
                        == old(self).rooms_view()[room_name@].devices_view()
                    &&& forall|k: Seq<char>|
                        k != room_name@ && #[trigger] old(self).rooms_view().contains_key(k)
                            ==> final(self).rooms_view()[k] == old(self).rooms_view()[k]
                },
            },
    {
        match self.rooms.get_mut(room_name) {
            None => Err(SmartHomeError::RoomNotFound { room: room_name.to_string() }),
            Some(room) => {
                let ghost room_before = *room;
                proof {
                    assert(rooms_wf(old(self).rooms@));
                    assert(room_before.wf());
                }
                match room.device_mut(device_name) {
                    Some(d) => Ok(d),
                    None => Err(
                        SmartHomeError::DeviceNotFound {
                            room: room_name.to_string(),
                            device: device_name.to_string(),
                        },
                    ),
                }
            },
        }
    }

    /// The home's name.
    pub fn name(&self) -> (r: &str)
        ensures
            r@ == self.name_view(),
    {
        self.name.as_str()
    }

    /// The number of rooms.
    pub fn room_count(&self) -> (r: usize)
        requires
            self.wf(),
        ensures
            r == self.rooms_view().len(),
    {
        self.rooms.len()
    }

    /// The `(key, room)` pairs, in ascending key order.
    pub fn rooms(&self) -> (r: &[(String, Room)])
        requires
            self.wf(),
        ensures
            keys_of(r@) == ascending_keys(self.rooms_view()),
            ascending(keys_of(r@)),
            r@.len() == self.rooms_view().len(),
            forall|i: int|
                0 <= i < r@.len() ==> self.rooms_view().contains_key(#[trigger] r@[i].0@)
                    && self.rooms_view()[r@[i].0@] == r@[i].1 && r@[i].1.wf(),
    {
        self.rooms.entries()
    }

    /// A well-formed home has finitely many rooms, and its keys in ascending
    /// order are strictly ascending, one per room.
    pub proof fn lemma_rooms_finite(&self)
        requires
            self.wf(),
        ensures
            self.rooms_view().dom().finite(),
            ascending(ascending_keys(self.rooms_view())),
            ascending_keys(self.rooms_view()).len() == self.rooms_view().len(),
    {
        self.rooms.lemma_enumerates();
    }

    /// Every room of a well-formed home is well formed.
    pub proof fn lemma_rooms_wf(&self)
        requires
            self.wf(),
        ensures
            rooms_wf(self.rooms_view()),
    {
    }

    /// Whether the two homes hold equal rooms under the same keys at the same
    /// positions.
    fn rooms_match(&self, other: &SmartHome) -> (r: bool)
        ensures
            r == self.same_rooms(other),
    {
        let n = self.rooms.size();
        if n != other.rooms.size() {
            return false;
        }
        let mut i: usize = 0;
        while i < n
            invariant
                n == self.rooms.pairs().len(),
                n == other.rooms.pairs().len(),
                i <= n,
                forall|j: int| 0 <= j < i ==> #[trigger] self.rooms.pairs()[j].0@ == other.rooms.pairs()[j].0@,
                forall|j: int| 0 <= j < i ==> room_eq(&#[trigger] self.rooms.pairs()[j].1, &other.rooms.pairs()[j].1),
            decreases n - i,
        {
            let a = self.rooms.slot(i);
            let b = other.rooms.slot(i);
            if !(a.0 == b.0) {
                return false;
            }
            if !a.1.equals(&b.1) {
                return false;
            }
            i = i + 1;
        }
        true
    }
}

impl Clone for SmartHome {
    /// The same name, and a copy of each room under the same key.
    fn clone(&self) -> (r: SmartHome)
        ensures
            r.name_view() == self.name_view(),
            r.rooms_view().dom() == self.rooms_view().dom(),
            self.wf() ==> r.wf() && maps_eq_by(self.rooms_view(), r.rooms_view(), room_copying()),
    {
        let rooms = self.rooms.clone();
        proof {
            self.rooms.lemma_same_keys(&rooms);
            let a = self.rooms.pairs();
            let b = rooms.pairs();
            assert(a.len() == keys_of(a).len() && b.len() == keys_of(b).len());
            assert forall|i: int| 0 <= i < a.len() implies #[trigger] a[i].0@ == b[i].0@
                && room_copying()(a[i].1, b[i].1) by {
                assert(keys_of(a)[i] == keys_of(b)[i]);
                assert(cloned::<Room>(a[i].1, b[i].1));
                if a[i].1 != b[i].1 {
                    assert(vstd::pervasive::strictly_cloned::<Room>(a[i].1, b[i].1));
                }
            }
            assert(entries_eq_by(a, b, room_copying()));
            if self.wf() {
                self.rooms.lemma_entries_eq(&rooms, room_copying());
                assert forall|k: Seq<char>| #[trigger] rooms@.contains_key(k) implies rooms@[k].wf() by {
                    assert(self.rooms@.contains_key(k));
                }
            }
        }
        SmartHome { name: self.name.clone(), rooms }
    }
}

/// Homes are equal when their names are and they hold the same keys with
/// equal rooms.
pub open spec fn home_eq(a: &SmartHome, b: &SmartHome) -> bool {
    a.name_view() == b.name_view() && a.same_rooms(b)
}

impl PartialEq for SmartHome {
    fn eq(&self, other: &SmartHome) -> (r: bool) {
        self.name == other.name && self.rooms_match(other)
    }
}

impl vstd::std_specs::cmp::PartialEqSpecImpl for SmartHome {
    open spec fn obeys_eq_spec() -> bool {
        true
    }

    open spec fn eq_spec(&self, other: &SmartHome) -> bool {
        home_eq(self, other)
    }
}

impl Report for SmartHome {
    open spec fn is_reportable(&self) -> bool {
        self.wf()
    }

    open spec fn is_report_text(&self, text: Seq<char>) -> bool {
        exists|parts: Seq<Seq<char>>|
            room_reports(self.rooms_view(), ascending_keys(self.rooms_view()), parts) && text
                == home_report_text(self.name_view(), parts)
    }

    fn report(&self) -> (r: String) {
        proof {
            self.rooms.lemma_enumerates();
        }
        let mut s = String::new();
        s.append("Smart home '");
        s.append(self.name.as_str());
        s.append("':\n");
        let ghost header = s@;
        let ghost rooms = self.rooms@;
        let ghost keys = ascending_keys(rooms);
        let ghost mut parts: Seq<Seq<char>> = seq![];
        if self.rooms.is_empty() {
            s.append("  (no rooms)\n");
        } else {
            let entries = self.rooms.entries();
            let n = entries.len();
            let mut i: usize = 0;
            while i < n
                invariant
                    n == entries@.len(),
                    i <= n,
                    keys_of(entries@) == keys,
                    rooms_wf(rooms),
                    forall|j: int| 0 <= j < n ==> rooms.contains_key(#[trigger] entries@[j].0@) && rooms[entries@[j].0@] == entries@[j].1,
                    parts.len() == i,
                    forall|j: int| 0 <= j < i ==> entries@[j].1.is_report_text(#[trigger] parts[j]),
                    s@ == header + prefixed(seq![], parts),
                decreases n - i,
            {
                proof {
                    assert(rooms.contains_key(entries@[i as int].0@));
                }
                let text = entries[i].1.report();
                s.append(text.as_str());
                proof {
                    let old_parts = parts;
                    parts = parts.push(text@);
                    assert(parts.drop_last() =~= old_parts);
                    assert(s@ =~= header + prefixed(seq![], parts));
                }
                i = i + 1;
            }
            proof {
                assert forall|j: int| 0 <= j < keys.len() implies rooms[keys[j]].is_report_text(#[trigger] parts[j]) by {
                    assert(keys[j] == entries@[j].0@);
                }
            }
        }
        let ghost body = s@;
        s.append("\n");
        assert(room_reports(rooms, keys, parts));
        assert(s@ == home_report_text(self.name_view(), parts));
        assert(self.is_report_text(s@));
        s
    }
}

} // verus!
