//! [`HomeBuilder`]: a type-state builder of a [`SmartHome`]; devices can only
//! be added once a room exists.

use std::marker::PhantomData;
use vstd::prelude::*;
use vstd::std_specs::convert::IntoSpec;

use crate::devices::Device;
use crate::home::room::Room;
use crate::home::smart_home::{rooms_wf, SmartHome};
use crate::keyed::KeyedMap;

verus! {

/// Builder state before the first room is added.
pub struct NoRoom;

/// Builder state after at least one room is available.
pub struct WithRoom;

/// Type-state builder for [`SmartHome`].
pub struct HomeBuilder<State = NoRoom> {
    name: String,
    rooms: KeyedMap<Room>,
    current_room: Option<String>,
    state: PhantomData<State>,
}

impl<State> HomeBuilder<State> {
    /// The rooms are well formed and the current room is one of them.
    pub closed spec fn wf(&self) -> bool {
        &&& self.rooms.wf()
        &&& rooms_wf(self.rooms@)
        &&& match self.current_room {
            Some(c) => self.rooms@.contains_key(c@),
            None => true,
        }
    }

    /// The name the home will get.
    pub closed spec fn name_view(&self) -> Seq<char> {
        self.name@
    }

    /// The rooms so far, by key.
    pub closed spec fn rooms_view(&self) -> Map<Seq<char>, Room> {
        self.rooms@
    }

    /// The key of the room devices go into.
    pub closed spec fn current_view(&self) -> Option<Seq<char>> {
        match self.current_room {
            Some(c) => Some(c@),
            None => None,
        }
    }

    /// Puts an empty room named `name` under the key `name` (replacing a room
    /// with that key) and makes it the current room.
    fn put_room(&mut self, name: &str)
        requires
            old(self).wf(),
        ensures
            final(self).wf(),
            final(self).name_view() == old(self).name_view(),
            final(self).current_view() == Some(name@),
            final(self).rooms_view().dom() == old(self).rooms_view().dom().insert(name@),
            final(self).rooms_view()[name@].name_view() == name@,
            final(self).rooms_view()[name@].devices_view() == Map::<Seq<char>, Device>::empty(),
            forall|k: Seq<char>|
                k != name@ && #[trigger] old(self).rooms_view().contains_key(k)
                    ==> final(self).rooms_view()[k] == old(self).rooms_view()[k],
    {
        let room = Room::new(name.to_string(), KeyedMap::new());
        self.rooms.insert(name.to_string(), room);
        self.current_room = Some(name.to_string());
        assert(rooms_wf(self.rooms@));
    }
}

impl HomeBuilder<NoRoom> {
    /// A builder of a home named `Smart Home`, with no rooms yet.
    pub fn new() -> (r: HomeBuilder<NoRoom>)
        ensures
            r.wf(),
            r.name_view() == "Smart Home"@,
            r.rooms_view() == Map::<Seq<char>, Room>::empty(),
            r.current_view() is None,
    {
        HomeBuilder {
            name: "Smart Home".to_string(),
            rooms: KeyedMap::new(),
            current_room: None,
            state: PhantomData,
        }
    }

    /// A builder of a home named `name`, with no rooms yet.
    pub fn with_name(name: &str) -> (r: HomeBuilder<NoRoom>)
        ensures
            r.wf(),
            r.name_view() == name@,
            r.rooms_view() == Map::<Seq<char>, Room>::empty(),
            r.current_view() is None,
    {
        HomeBuilder { name: name.to_string(), rooms: KeyedMap::new(), current_room: None, state: PhantomData }
    }

    /// Adds an empty room named `name` under the key `name`; devices added
    /// next go into it.
    pub fn add_room(self, name: &str) -> (r: HomeBuilder<WithRoom>)
        requires
            self.wf(),
        ensures
            r.wf(),
            r.name_view() == self.name_view(),
            r.current_view() == Some(name@),
            r.rooms_view().dom() == self.rooms_view().dom().insert(name@),
            r.rooms_view()[name@].name_view() == name@,
            r.rooms_view()[name@].devices_view() == Map::<Seq<char>, Device>::empty(),
            forall|k: Seq<char>|
                k != name@ && #[trigger] self.rooms_view().contains_key(k) ==> r.rooms_view()[k]
                    == self.rooms_view()[k],
    {
        let mut b = self;
        b.put_room(name);
        HomeBuilder { name: b.name, rooms: b.rooms, current_room: b.current_room, state: PhantomData }
    }

    /// The home with the name and rooms gathered so far.
    pub fn build(self) -> (r: SmartHome)
        requires
            self.wf(),
        ensures
            r.wf(),
            r.name_view() == self.name_view(),
            r.rooms_view() == self.rooms_view(),
    {
        SmartHome::new(self.name, self.rooms)
    }
}

impl Default for HomeBuilder<NoRoom> {
    /// Same as [`HomeBuilder::new`].
    fn default() -> (r: HomeBuilder<NoRoom>)
        ensures
            r.wf(),
            r.name_view() == "Smart Home"@,
            r.rooms_view() == Map::<Seq<char>, Room>::empty(),
            r.current_view() is None,
    {
        HomeBuilder::new()
    }
}

impl HomeBuilder<WithRoom> {
    /// Adds an empty room named `name` under the key `name` (replacing a room
    /// with that key); devices added next go into it.
    pub fn add_room(self, name: &str) -> (r: HomeBuilder<WithRoom>)
        requires
            self.wf(),
        ensures
            r.wf(),
            r.name_view() == self.name_view(),
            r.current_view() == Some(name@),
            r.rooms_view().dom() == self.rooms_view().dom().insert(name@),
            r.rooms_view()[name@].name_view() == name@,
            r.rooms_view()[name@].devices_view() == Map::<Seq<char>, Device>::empty(),
            forall|k: Seq<char>|
                k != name@ && #[trigger] self.rooms_view().contains_key(k) ==> r.rooms_view()[k]
                    == self.rooms_view()[k],
    {
        let mut b = self;
        b.put_room(name);
        b
    }

    /// Puts `device` under `key` in the current room.
    pub fn add_device<D: Into<Device>>(self, key: &str, device: D) -> (r: HomeBuilder<WithRoom>)
        requires
            self.wf(),
            self.current_view() is Some,
        ensures
            r.wf(),
            r.name_view() == self.name_view(),
            r.current_view() == self.current_view(),
            r.rooms_view().dom() == self.rooms_view().dom(),
            r.rooms_view()[self.current_view()->0].name_view() == self.rooms_view()[self.current_view()->0].name_view(),
            exists|d: Device|
                #![trigger self.rooms_view()[self.current_view()->0].devices_view().insert(key@, d)]
                r.rooms_view()[self.current_view()->0].devices_view()
                    == self.rooms_view()[self.current_view()->0].devices_view().insert(key@, d)
                    && (<D as IntoSpec<Device>>::obeys_into_spec() ==> d == device.into_spec()),
            forall|k: Seq<char>|
                k != self.current_view()->0 && #[trigger] self.rooms_view().contains_key(k)
                    ==> r.rooms_view()[k] == self.rooms_view()[k],
    {
        let mut b = self;
        let ghost start = b.rooms@;
        let ghost old_current = b.current_view()->0;
        let d: Device = device.into();
        let ghost added = d;
        match &b.current_room {
            Some(current) => {
                match b.rooms.get_mut(current.as_str()) {
                    Some(room) => {
                        proof {
                            assert(rooms_wf(start));
                        }
                        room.insert_device(key.to_string(), d);
                    },
                    None => {},
                }
            },
            None => {},
        }
        proof {
            assert(rooms_wf(b.rooms@));
            let c = old_current;
            assert(b.rooms@[c].devices_view() == start[c].devices_view().insert(key@, added));
        }
        b
    }

    /// The home with the name and rooms gathered so far.
    pub fn build(self) -> (r: SmartHome)
        requires
            self.wf(),
        ensures
            r.wf(),
            r.name_view() == self.name_view(),
            r.rooms_view() == self.rooms_view(),
    {
        SmartHome::new(self.name, self.rooms)
    }
}

} // verus!
