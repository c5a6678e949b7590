//! The house/room hierarchy: rooms own devices, a house owns rooms, and the
//! house renders a report of what it contains.

use vstd::prelude::*;

use crate::devices::Device;
use crate::devices::device_names;
use crate::names::find_name;
use crate::names::house_name_seq;
use crate::names::lemma_find_name_at;
use crate::names::lemma_find_name_none;
use crate::names::make_house_name;
use crate::names::make_room_name;
use crate::names::room_name_seq;

verus! {

/// Why a device lookup failed.
#[derive(Debug, Clone, PartialEq, Eq, Structural)]
pub enum GetDataError {
    /// No room in the house has the requested name.
    RoomNotFound,
    /// The room was found, but no device in it has the requested name.
    DeviceNotFound,
}

/// One physical room: a name, fixed when the house creates the room, and
/// the devices it owns, in insertion order.
#[derive(Debug)]
pub struct Room {
    name: String,
    pub devices: Vec<Device>,
}

impl Room {
    /// The room's name.
    pub closed spec fn spec_name(&self) -> Seq<char> {
        self.name@
    }

    /// The room's devices, in insertion order.
    pub closed spec fn spec_devices(&self) -> Seq<Device> {
        self.devices@
    }

    /// Constructs a room with the given name and initial devices.
    pub fn new(name: String, devices: Vec<Device>) -> (r: Room)
        ensures
            r.spec_name() == name@,
            r.spec_devices() == devices@,
    {
        Room { name, devices }
    }

    /// Returns the room's name.
    pub fn get_name(&self) -> (r: String)
        ensures
            r@ == self.spec_name(),
    {
        self.name.clone()
    }

    /// Returns a read-only view of the room's devices.
    pub fn get_devices(&self) -> (r: &Vec<Device>)
        ensures
            r@ == self.spec_devices(),
    {
        &self.devices
    }

    /// Appends a device at the end of the room's device sequence.
    pub fn add_device(&mut self, device: Device)
        ensures
            final(self).spec_name() == old(self).spec_name(),
            final(self).spec_devices() == old(self).spec_devices().push(device),
    {
        self.devices.push(device)
    }

    /// Removes and returns the first device whose name is `name`, keeping
    /// the order of the remaining devices; returns `None`, and leaves the
    /// room unchanged, when no device has that name.
    pub fn remove_device(&mut self, name: String) -> (r: Option<Device>)
        ensures
            final(self).spec_name() == old(self).spec_name(),
            ({
                let j = find_name(device_names(old(self).spec_devices()), name@);
                if j < old(self).spec_devices().len() {
                    &&& r == Some(old(self).spec_devices()[j])
                    &&& final(self).spec_devices() == old(self).spec_devices().remove(j)
                } else {
                    &&& r is None
                    &&& final(self).spec_devices() == old(self).spec_devices()
                }
            }),
    {
        let mut i: usize = 0;
        while i < self.devices.len()
            invariant
                *self == *old(self),
                i <= self.devices@.len(),
                forall|k: int| 0 <= k < i ==> device_names(self.devices@)[k] != name@,
            decreases self.devices@.len() - i,
        {
            if *self.devices[i].get_name() == name {
                proof {
                    lemma_find_name_at(device_names(self.devices@), name@, i as int);
                }
                let d = self.devices.remove(i);
                return Some(d);
            }
            i = i + 1;
        }
        proof {
            lemma_find_name_none(device_names(self.devices@), name@);
        }
        None
    }
}

/// After removing the first device of a given name — the effect
/// `remove_device` promises — no device of that name remains, provided no
/// two devices in the sequence shared that name. (With duplicate names,
/// only the first occurrence is removed and the others stay.)
pub proof fn lemma_removed_name_gone(devs: Seq<Device>, name: Seq<char>)
    requires
        forall|k1: int, k2: int|
            #![trigger devs[k1].spec_name(), devs[k2].spec_name()]
            0 <= k1 < devs.len() && 0 <= k2 < devs.len() && k1 != k2 ==> !(devs[k1].spec_name()
                == name && devs[k2].spec_name() == name),
        find_name(device_names(devs), name) < devs.len(),
    ensures
        forall|k: int|
            0 <= k < devs.len() - 1 ==> #[trigger] devs.remove(
                find_name(device_names(devs), name),
            )[k].spec_name() != name,
{
    let names = device_names(devs);
    let j = find_name(names, name);
    crate::names::lemma_find_name(names, name);
    assert(devs[j].spec_name() == name);
    assert forall|k: int| 0 <= k < devs.len() - 1 implies devs.remove(j)[k].spec_name() != name by {
        if k < j {
            assert(devs.remove(j)[k] == devs[k]);
        } else {
            assert(devs.remove(j)[k] == devs[k + 1]);
        }
    }
}

/// The names of the rooms, in storage order.
pub open spec fn room_names(rooms: Seq<Room>) -> Seq<Seq<char>> {
    rooms.map_values(|r: Room| r.spec_name())
}

/// The names joined with ", ": empty for no names, and no separator before
/// the first.
pub open spec fn join_names(names: Seq<Seq<char>>) -> Seq<char>
    decreases names.len(),
{
    if names.len() == 0 {
        Seq::empty()
    } else if names.len() == 1 {
        names[0]
    } else {
        join_names(names.drop_last()) + ", "@ + names.last()
    }
}

/// The report line for one room: its name, the fixed label, its device
/// names joined with ", ", and a terminating newline.
pub open spec fn report_line(room: Room) -> Seq<char> {
    room.spec_name() + " has devices: "@ + join_names(device_names(room.spec_devices())) + "\n"@
}

/// The whole report: one line per room, in storage order, with no extra
/// separator between lines.
pub open spec fn report_text(rooms: Seq<Room>) -> Seq<char>
    decreases rooms.len(),
{
    if rooms.len() == 0 {
        Seq::empty()
    } else {
        report_text(rooms.drop_last()) + report_line(rooms.last())
    }
}

/// A house: a name derived from its owner's, and the rooms it owns, in
/// creation order.
#[derive(Debug)]
pub struct SmartHouse {
    name: String,
    rooms: Vec<Room>,
}

impl SmartHouse {
    /// The house's name.
    pub closed spec fn spec_name(&self) -> Seq<char> {
        self.name@
    }

    /// The house's rooms, in creation order.
    pub closed spec fn spec_rooms(&self) -> Seq<Room> {
        self.rooms@
    }

    /// Constructs a house named `{owner_name}_HOUSE`. The `i`-th input
    /// device list (0-based) becomes a room named
    /// `{house_name}_{i+1}_ROOM` holding exactly that list, and the rooms
    /// are kept in input order.
    pub fn new(owner_name: String, devices_in_rooms: Vec<Vec<Device>>) -> (h: SmartHouse)
        ensures
            h.spec_name() == house_name_seq(owner_name@),
            h.spec_rooms().len() == devices_in_rooms@.len(),
            forall|i: int|
                #![trigger h.spec_rooms()[i]]
                0 <= i < devices_in_rooms@.len() ==> {
                    &&& h.spec_rooms()[i].spec_name() == room_name_seq(
                        house_name_seq(owner_name@),
                        (i + 1) as nat,
                    )
                    &&& h.spec_rooms()[i].spec_devices() == devices_in_rooms@[i]@
                },
    {
        let house_name = make_house_name(owner_name.as_str());
        let mut remaining = devices_in_rooms;
        let ghost all: Seq<Vec<Device>> = remaining@;
        proof {
            vstd::std_specs::vec::axiom_spec_len(&remaining);
        }
        let mut rooms: Vec<Room> = Vec::new();
        while remaining.len() > 0
            invariant
                house_name@ == house_name_seq(owner_name@),
                all.len() <= usize::MAX,
                rooms@.len() + remaining@.len() == all.len(),
                remaining@ == all.subrange(rooms@.len() as int, all.len() as int),
                forall|i: int|
                    #![trigger rooms@[i]]
                    0 <= i < rooms@.len() ==> {
                        &&& rooms@[i].spec_name() == room_name_seq(
                            house_name_seq(owner_name@),
                            (i + 1) as nat,
                        )
                        &&& rooms@[i].spec_devices() == all[i]@
                    },
            decreases remaining@.len(),
        {
            let devs = remaining.remove(0);
            let index = rooms.len();
            let room_name = make_room_name(house_name.as_str(), (index as u64) + 1);
            rooms.push(Room::new(room_name, devs));
        }
        SmartHouse { name: house_name, rooms }
    }

    /// Returns a read-only view of the house's rooms.
    pub fn get_rooms(&self) -> (r: &Vec<Room>)
        ensures
            r@ == self.spec_rooms(),
    {
        &self.rooms
    }

    /// Returns the first room named `room_name`, or `None` when the house
    /// has no room of that name.
    pub fn get_room(&self, room_name: String) -> (r: Option<&Room>)
        ensures
            ({
                let j = find_name(room_names(self.spec_rooms()), room_name@);
                if j < self.spec_rooms().len() {
                    r matches Some(room) && *room == self.spec_rooms()[j]
                } else {
                    r is None
                }
            }),
    {
        let mut i: usize = 0;
        while i < self.rooms.len()
            invariant
                i <= self.rooms@.len(),
                forall|k: int| 0 <= k < i ==> room_names(self.rooms@)[k] != room_name@,
            decreases self.rooms@.len() - i,
        {
            if self.rooms[i].name == room_name {
                proof {
                    lemma_find_name_at(room_names(self.rooms@), room_name@, i as int);
                }
                return Some(&self.rooms[i]);
            }
            i = i + 1;
        }
        proof {
            lemma_find_name_none(room_names(self.rooms@), room_name@);
        }
        None
    }

    /// Appends an empty room named `{house_name}_{n+1}_ROOM`, where `n` is
    /// the current room count. Removed rooms are not renumbered, so this
    /// name can coincide with a surviving room's when rooms were removed
    /// earlier; the name scheme is kept as it is, collisions and all.
    pub fn add_room(&mut self)
        requires
            old(self).spec_rooms().len() < usize::MAX,
        ensures
            final(self).spec_name() == old(self).spec_name(),
            final(self).spec_rooms().len() == old(self).spec_rooms().len() + 1,
            forall|i: int|
                0 <= i < old(self).spec_rooms().len() ==> #[trigger] final(self).spec_rooms()[i]
                    == old(self).spec_rooms()[i],
            final(self).spec_rooms().last().spec_name() == room_name_seq(
                old(self).spec_name(),
                (old(self).spec_rooms().len() + 1) as nat,
            ),
            final(self).spec_rooms().last().spec_devices() == Seq::<Device>::empty(),
    {
        let index = self.rooms.len();
        let room_name = make_room_name(self.name.as_str(), (index as u64) + 1);
        self.rooms.push(Room::new(room_name, Vec::new()));
    }

    /// Removes and returns the first room named `name`, keeping the order
    /// of the remaining rooms; returns `None`, and leaves the house
    /// unchanged, when no room has that name.
    pub fn remove_room(&mut self, name: String) -> (r: Option<Room>)
        ensures
            final(self).spec_name() == old(self).spec_name(),
            ({
                let j = find_name(room_names(old(self).spec_rooms()), name@);
                if j < old(self).spec_rooms().len() {
                    &&& r matches Some(room) && room == old(self).spec_rooms()[j]
                    &&& final(self).spec_rooms() == old(self).spec_rooms().remove(j)
                } else {
                    &&& r is None
                    &&& final(self).spec_rooms() == old(self).spec_rooms()
                }
            }),
    {
        let mut i: usize = 0;
        while i < self.rooms.len()
            invariant
                *self == *old(self),
                i <= self.rooms@.len(),
                forall|k: int| 0 <= k < i ==> room_names(self.rooms@)[k] != name@,
            decreases self.rooms@.len() - i,
        {
            if self.rooms[i].name == name {
                proof {
                    lemma_find_name_at(room_names(self.rooms@), name@, i as int);
                }
                let room = self.rooms.remove(i);
                return Some(room);
            }
            i = i + 1;
        }
        proof {
            lemma_find_name_none(room_names(self.rooms@), name@);
        }
        None
    }

    /// Looks up a device by room name, then by device name within that
    /// room. Fails with `RoomNotFound` when no room matches, whatever the
    /// device name; with `DeviceNotFound` when the room matches but holds
    /// no device of that name.
    pub fn get_device(&self, room_name: String, device_name: String) -> (r: Result<
        &Device,
        GetDataError,
    >)
        ensures
            ({
                let j = find_name(room_names(self.spec_rooms()), room_name@);
                if j == self.spec_rooms().len() {
                    r matches Err(e) && e == GetDataError::RoomNotFound
                } else {
                    let devs = self.spec_rooms()[j].spec_devices();
                    let k = find_name(device_names(devs), device_name@);
                    if k == devs.len() {
                        r matches Err(e) && e == GetDataError::DeviceNotFound
                    } else {
                        r matches Ok(d) && *d == devs[k]
                    }
                }
            }),
    {
        let ghost jn = find_name(room_names(self.spec_rooms()), room_name@);
        proof {
            crate::names::lemma_find_name(room_names(self.spec_rooms()), room_name@);
        }
        let room = match self.get_room(room_name) {
            Some(room) => room,
            None => {
                return Err(GetDataError::RoomNotFound);
            },
        };
        let ghost devs = room.spec_devices();
        let mut i: usize = 0;
        while i < room.devices.len()
            invariant
                0 <= jn < self.spec_rooms().len(),
                jn == find_name(room_names(self.spec_rooms()), room_name@),
                *room == self.spec_rooms()[jn],
                room.devices@ == devs,
                i <= devs.len(),
                forall|k: int| 0 <= k < i ==> device_names(devs)[k] != device_name@,
            decreases devs.len() - i,
        {
            if *room.devices[i].get_name() == device_name {
                proof {
                    lemma_find_name_at(device_names(devs), device_name@, i as int);
                }
                return Ok(&room.devices[i]);
            }
            i = i + 1;
        }
        proof {
            lemma_find_name_none(device_names(devs), device_name@);
        }
        Err(GetDataError::DeviceNotFound)
    }

    /// Renders the report: for each room, in storage order, one line
    /// `{room_name} has devices: {device names joined with ", "}`, each
    /// line terminated by a newline and nothing between lines.
    pub fn create_report(&self) -> (r: String)
        ensures
            r@ == report_text(self.spec_rooms()),
    {
        let mut result = String::new();
        let mut i: usize = 0;
        while i < self.rooms.len()
            invariant
                i <= self.rooms@.len(),
                result@ == report_text(self.rooms@.take(i as int)),
            decreases self.rooms@.len() - i,
        {
            let room = &self.rooms[i];
            result.append(room.name.as_str());
            result.append(" has devices: ");
            let ghost dnames = device_names(room.spec_devices());
            proof {
                assert(result@ =~= report_text(self.rooms@.take(i as int)) + room.spec_name()
                    + " has devices: "@ + join_names(dnames.take(0)));
            }
            let mut k: usize = 0;
            while k < room.devices.len()
                invariant
                    0 <= i < self.rooms@.len(),
                    *room == self.rooms@[i as int],
                    dnames == device_names(room.spec_devices()),
                    k <= room.devices@.len(),
                    result@ == report_text(self.rooms@.take(i as int)) + room.spec_name()
                        + " has devices: "@ + join_names(dnames.take(k as int)),
                decreases room.devices@.len() - k,
            {
                if k > 0 {
                    result.append(", ");
                }
                result.append(room.devices[k].get_name().as_str());
                proof {
                    assert(dnames.take(k as int + 1).drop_last() =~= dnames.take(k as int));
                    assert(dnames.take(k as int + 1).last() == dnames[k as int]);
                    assert(result@ =~= report_text(self.rooms@.take(i as int)) + room.spec_name()
                        + " has devices: "@ + join_names(dnames.take(k as int + 1)));
                }
                k = k + 1;
            }
            result.append("\n");
            proof {
                assert(dnames.take(room.devices@.len() as int) =~= dnames);
                assert(self.rooms@.take(i as int + 1).drop_last() =~= self.rooms@.take(i as int));
                assert(self.rooms@.take(i as int + 1).last() == self.rooms@[i as int]);
                assert(result@ =~= report_text(self.rooms@.take(i as int + 1)));
            }
            i = i + 1;
        }
        proof {
            assert(self.rooms@.take(self.rooms@.len() as int) =~= self.rooms@);
        }
        result
    }
}

} // verus!
