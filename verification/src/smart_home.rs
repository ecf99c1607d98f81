//! The home: a table of rooms keyed by their names, each a table of
//! devices.  One instance of this registry is shared by every
//! connection of the server.

use vstd::prelude::*;

use crate::smart_device::{Device, DeviceInfo, DeviceView, SocketView, ThermometerView};
use crate::smart_room::Room;
use crate::text::sep_joined;
use crate::table::{
    lemma_table_lookup_at, lemma_table_lookup_none, lemma_table_remove_absent,
    lemma_table_remove_at, table_keys, table_lookup, table_remove, table_set, table_unique,
    table_vals,
};

verus! {

/// A room's state, as specifications see it.
pub type RoomView = Seq<(Seq<char>, DeviceView)>;

/// The whole registry's state, as specifications see it.
pub type HomeView = Seq<(Seq<char>, RoomView)>;

/// The registry: a named home holding rooms, keyed by name.
#[derive(Debug, PartialEq, Eq)]
pub struct Home {
    pub name: String,
    pub rooms: Vec<(String, Room)>,
}

impl View for Home {
    type V = HomeView;

    open spec fn view(&self) -> HomeView {
        self.rooms@.map_values(|e: (String, Room)| (e.0@, e.1@))
    }
}

impl Clone for Room {
    /// A room with the same devices.
    fn clone(&self) -> (res: Room)
        ensures
            res@ == self@,
    {
        let n = self.devices.len();
        let mut v: Vec<(String, Device)> = Vec::new();
        let mut i: usize = 0;
        while i < n
            invariant
                i <= n,
                n == self.devices@.len(),
                v@.map_values(|e: (String, Device)| (e.0@, e.1@)) =~= self@.take(i as int),
            decreases n - i,
        {
            v.push((self.devices[i].0.clone(), self.devices[i].1.clone()));
            i = i + 1;
        }
        let res = Room { devices: v };
        proof {
            assert(self@.take(n as int) =~= self@);
            assert(res@ =~= self@);
        }
        res
    }
}

impl Home {
    /// Room names are unique, and every room is well-formed.
    pub open spec fn wf(&self) -> bool {
        table_unique(self@) && (forall|i: int|
            0 <= i < self@.len() ==> table_unique(#[trigger] self@[i].1))
    }

    /// The home's own name.
    pub open spec fn name_spec(&self) -> Seq<char> {
        self.name@
    }

    /// An empty home with the given name.
    pub fn new(name: &str) -> (r: Home)
        ensures
            r@.len() == 0,
            r.name_spec() == name@,
            r.wf(),
    {
        Home { name: name.to_owned(), rooms: Vec::new() }
    }

    /// The index of the room entered under `name`, with nothing under
    /// that name before it.
    fn find_index(&self, name: &str) -> (r: Option<usize>)
        ensures
            match r {
                Some(i) => i < self@.len() && self@[i as int].0 == name@ && (forall|m: int|
                    0 <= m < i ==> self@[m].0 != name@),
                None => forall|m: int| 0 <= m < self@.len() ==> self@[m].0 != name@,
            },
    {
        let n = self.rooms.len();
        let mut i: usize = 0;
        while i < n
            invariant
                i <= n,
                n == self@.len(),
                forall|m: int| 0 <= m < i ==> self@[m].0 != name@,
            decreases n - i,
        {
            if crate::text::str_eq(self.rooms[i].0.as_str(), name) {
                return Some(i);
            }
            i = i + 1;
        }
        None
    }

    /// The room names, in insertion order.
    pub fn room_names_list(&self) -> (r: Vec<String>)
        ensures
            r.deep_view() == table_keys(self@),
    {
        let n = self.rooms.len();
        let mut r: Vec<String> = Vec::new();
        let mut i: usize = 0;
        while i < n
            invariant
                i <= n,
                n == self@.len(),
                r.deep_view() =~= table_keys(self@).take(i as int),
            decreases n - i,
        {
            r.push(self.rooms[i].0.clone());
            i = i + 1;
        }
        proof {
            assert(table_keys(self@).take(n as int) =~= table_keys(self@));
        }
        r
    }

    /// The rooms, in insertion order.
    pub fn room_list(&self) -> (r: Vec<Room>)
        ensures
            r@.map_values(|x: Room| x@) == table_vals(self@),
    {
        let n = self.rooms.len();
        let mut r: Vec<Room> = Vec::new();
        let mut i: usize = 0;
        while i < n
            invariant
                i <= n,
                n == self@.len(),
                r@.map_values(|x: Room| x@) =~= table_vals(self@).take(i as int),
            decreases n - i,
        {
            r.push(self.rooms[i].1.clone());
            i = i + 1;
        }
        proof {
            assert(table_vals(self@).take(n as int) =~= table_vals(self@));
        }
        r
    }

    /// Enters an empty room under `unique_name` and returns an equal
    /// room, or returns nothing and changes nothing when the name is
    /// taken.
    pub fn add_room(&mut self, unique_name: &str) -> (r: Option<Room>)
        ensures
            table_lookup(old(self)@, unique_name@) is Some ==> r is None && *final(self)
                == *old(self),
            table_lookup(old(self)@, unique_name@) is None ==> (match r {
                Some(x) => x@.len() == 0,
                None => false,
            }) && final(self)@ =~~= old(self)@.push((unique_name@, Seq::empty())),
            final(self).name_spec() == old(self).name_spec(),
            old(self).wf() ==> final(self).wf(),
    {
        match self.find_index(unique_name) {
            Some(i) => {
                proof {
                    lemma_table_lookup_at(self@, unique_name@, i as int);
                }
                None
            },
            None => {
                proof {
                    lemma_table_lookup_none(self@, unique_name@);
                }
                let room = Room::new();
                let out = room.clone();
                self.rooms.push((unique_name.to_owned(), room));
                proof {
                    let prev = old(self)@;
                    let now = final(self)@;
                    assert(now =~~= prev.push((unique_name@, Seq::empty())));
                    if old(self).wf() {
                        assert forall|i: int, j: int|
                            0 <= i < j < now.len() implies now[i].0 != now[j].0 by {
                            if j < prev.len() {
                                assert(prev[i].0 != prev[j].0);
                            } else {
                                assert(prev[i].0 != unique_name@);
                            }
                        }
                        assert forall|i: int|
                            0 <= i < now.len() implies table_unique(#[trigger] now[i].1) by {
                            if i < prev.len() {
                                assert(table_unique(prev[i].1));
                            }
                        }
                    }
                }
                Some(out)
            },
        }
    }

    /// Takes the room entered under `room_name` out of the home, or
    /// returns nothing and changes nothing when there is none.
    pub fn remove_room(&mut self, room_name: &str) -> (r: Option<Room>)
        ensures
            final(self)@ =~= table_remove(old(self)@, room_name@),
            (match table_lookup(old(self)@, room_name@) {
                Some(rv) => r matches Some(x) && x@ == rv,
                None => r is None,
            }),
            final(self).name_spec() == old(self).name_spec(),
            old(self).wf() ==> final(self).wf(),
    {
        match self.find_index(room_name) {
            Some(i) => {
                proof {
                    lemma_table_lookup_at(self@, room_name@, i as int);
                    lemma_table_remove_at(self@, room_name@, i as int);
                }
                let e = self.rooms.remove(i);
                proof {
                    let prev = old(self)@;
                    let now = final(self)@;
                    assert(now =~= prev.subrange(0, i as int) + prev.subrange(
                        i + 1,
                        prev.len() as int,
                    ));
                    if old(self).wf() {
                        assert forall|a: int, b: int|
                            0 <= a < b < now.len() implies now[a].0 != now[b].0 by {
                            let oa = if a < i {
                                a
                            } else {
                                a + 1
                            };
                            let ob = if b < i {
                                b
                            } else {
                                b + 1
                            };
                            assert(prev[oa].0 != prev[ob].0);
                        }
                        assert forall|a: int|
                            0 <= a < now.len() implies table_unique(#[trigger] now[a].1) by {
                            let oa = if a < i {
                                a
                            } else {
                                a + 1
                            };
                            assert(table_unique(prev[oa].1));
                        }
                    }
                }
                Some(e.1)
            },
            None => {
                proof {
                    lemma_table_lookup_none(self@, room_name@);
                    lemma_table_remove_absent(self@, room_name@);
                }
                None
            },
        }
    }

    /// An equal copy of the room entered under `room_name`, if any.
    pub fn get_room_by_name(&self, room_name: &str) -> (r: Option<Room>)
        ensures
            (match table_lookup(self@, room_name@) {
                Some(rv) => r matches Some(x) && x@ == rv,
                None => r is None,
            }),
    {
        match self.find_index(room_name) {
            Some(i) => {
                proof {
                    lemma_table_lookup_at(self@, room_name@, i as int);
                }
                Some(self.rooms[i].1.clone())
            },
            None => {
                proof {
                    lemma_table_lookup_none(self@, room_name@);
                }
                None
            },
        }
    }

    /// The device names of the room entered under `room_name`, if any.
    pub fn device_names_list(&self, room_name: &str) -> (r: Option<Vec<String>>)
        ensures
            (match table_lookup(self@, room_name@) {
                Some(rv) => r matches Some(v) && v.deep_view() == table_keys(rv),
                None => r is None,
            }),
    {
        match self.find_index(room_name) {
            Some(i) => {
                proof {
                    lemma_table_lookup_at(self@, room_name@, i as int);
                }
                Some(self.rooms[i].1.device_names_list())
            },
            None => {
                proof {
                    lemma_table_lookup_none(self@, room_name@);
                }
                None
            },
        }
    }

    /// Enters `device` in the room entered under `room_name`, under
    /// `unique_name`; returns nothing and changes nothing when the room
    /// is missing or the device name is taken.
    pub fn add_device(&mut self, room_name: &str, unique_name: &str, device: Device) -> (r: Option<
        Device,
    >)
        ensures
            (match table_lookup(old(self)@, room_name@) {
                Some(rv) => {
                    if table_lookup(rv, unique_name@) is Some {
                        r is None && *final(self) == *old(self)
                    } else {
                        r matches Some(d) && d@ == device@
                    }
                },
                None => r is None && *final(self) == *old(self),
            }),
            old(self).wf() ==> (match table_lookup(old(self)@, room_name@) {
                Some(rv) => table_lookup(rv, unique_name@) is None ==> final(self)@ =~= table_set(
                    old(self)@,
                    room_name@,
                    rv.push((unique_name@, device@)),
                ),
                None => true,
            }),
            final(self).name_spec() == old(self).name_spec(),
            old(self).wf() ==> final(self).wf(),
    {
        match self.find_index(room_name) {
            Some(i) => {
                proof {
                    lemma_table_lookup_at(self@, room_name@, i as int);
                }
                let name = self.rooms[i].0.clone();
                let mut room = self.rooms[i].1.clone();
                match room.add_device(unique_name, device) {
                    Some(d) => {
                        self.rooms.set(i, (name, room));
                        proof {
                            self.lemma_set_room(old(self)@, i as int, room_name@);
                        }
                        Some(d)
                    },
                    None => {
                        None
                    },
                }
            },
            None => {
                proof {
                    lemma_table_lookup_none(self@, room_name@);
                }
                None
            },
        }
    }

    /// After replacing the room at index `i`, the registry is the old
    /// one with the entry under `name` rewritten, and well-formedness
    /// carries over from the old registry and the new room.
    proof fn lemma_set_room(&self, prev: HomeView, i: int, name: Seq<char>)
        requires
            0 <= i < prev.len(),
            prev[i].0 == name,
            forall|m: int| 0 <= m < i ==> prev[m].0 != name,
            self@.len() == prev.len(),
            self@[i].0 == prev[i].0,
            forall|m: int| 0 <= m < prev.len() && m != i ==> self@[m] == prev[m],
        ensures
            table_unique(prev) ==> self@ =~= table_set(prev, name, self@[i].1),
            (table_unique(prev) && (forall|m: int|
                0 <= m < prev.len() ==> table_unique(#[trigger] prev[m].1)) && table_unique(
                self@[i].1,
            )) ==> (table_unique(self@) && (forall|m: int|
                0 <= m < self@.len() ==> table_unique(#[trigger] self@[m].1))),
    {
        let now = self@;
        if table_unique(prev) {
            let want = table_set(prev, name, now[i].1);
            assert forall|m: int| 0 <= m < now.len() implies now[m] == want[m] by {
                if m != i {
                    if prev[m].0 == name {
                        if m > i {
                            assert(prev[i].0 != prev[m].0);
                        } else {
                            assert(prev[m].0 != name);
                        }
                    }
                }
            }
            assert(now =~= want);
            assert forall|a: int, b: int|
                0 <= a < b < now.len() implies now[a].0 != now[b].0 by {
                assert(prev[a].0 != prev[b].0);
            }
        }
    }

    /// Takes the device entered under `device_name` out of the room
    /// entered under `room_name`; returns nothing and changes nothing
    /// when either is missing.
    pub fn remove_device(&mut self, room_name: &str, device_name: &str) -> (r: Option<Device>)
        ensures
            (match table_lookup(old(self)@, room_name@) {
                Some(rv) => {
                    match table_lookup(rv, device_name@) {
                        Some(dv) => r matches Some(d) && d@ == dv,
                        None => r is None && *final(self) == *old(self),
                    }
                },
                None => r is None && *final(self) == *old(self),
            }),
            old(self).wf() ==> (match table_lookup(old(self)@, room_name@) {
                Some(rv) => table_lookup(rv, device_name@) is Some ==> final(self)@ =~= table_set(
                    old(self)@,
                    room_name@,
                    table_remove(rv, device_name@),
                ),
                None => true,
            }),
            final(self).name_spec() == old(self).name_spec(),
            old(self).wf() ==> final(self).wf(),
    {
        match self.find_index(room_name) {
            Some(i) => {
                proof {
                    lemma_table_lookup_at(self@, room_name@, i as int);
                }
                let name = self.rooms[i].0.clone();
                let mut room = self.rooms[i].1.clone();
                match room.remove_device(device_name) {
                    Some(d) => {
                        self.rooms.set(i, (name, room));
                        proof {
                            self.lemma_set_room(old(self)@, i as int, room_name@);
                        }
                        Some(d)
                    },
                    None => {
                        None
                    },
                }
            },
            None => {
                proof {
                    lemma_table_lookup_none(self@, room_name@);
                }
                None
            },
        }
    }

    /// An equal copy of the device entered under `device_name` in the
    /// room entered under `room_name`, if both exist.
    pub fn get_device_by_path(&self, room_name: &str, device_name: &str) -> (r: Option<Device>)
        ensures
            (match table_lookup(self@, room_name@) {
                Some(rv) => (match table_lookup(rv, device_name@) {
                    Some(dv) => r matches Some(d) && d@ == dv,
                    None => r is None,
                }),
                None => r is None,
            }),
    {
        match self.find_index(room_name) {
            Some(i) => {
                proof {
                    lemma_table_lookup_at(self@, room_name@, i as int);
                }
                self.rooms[i].1.get_device_by_name(device_name)
            },
            None => {
                proof {
                    lemma_table_lookup_none(self@, room_name@);
                }
                None
            },
        }
    }

    /// Replaces the device entered under `device_name` in the room
    /// entered under `room_name` and reports whether it was there;
    /// when it was not, nothing changes.
    pub fn replace_device_by_path(
        &mut self,
        room_name: &str,
        device_name: &str,
        device: Device,
    ) -> (r: bool)
        ensures
            r == (match table_lookup(old(self)@, room_name@) {
                Some(rv) => table_lookup(rv, device_name@) is Some,
                None => false,
            }),
            r && old(self).wf() ==> (match table_lookup(old(self)@, room_name@) {
                Some(rv) => final(self)@ =~= table_set(
                    old(self)@,
                    room_name@,
                    table_set(rv, device_name@, device@),
                ),
                None => false,
            }),
            !r ==> *final(self) == *old(self),
            final(self).name_spec() == old(self).name_spec(),
            old(self).wf() ==> final(self).wf(),
    {
        match self.find_index(room_name) {
            Some(i) => {
                proof {
                    lemma_table_lookup_at(self@, room_name@, i as int);
                    if old(self).wf() {
                        assert(table_unique(self@[i as int].1));
                    }
                }
                let name = self.rooms[i].0.clone();
                let mut room = self.rooms[i].1.clone();
                if room.replace_device(device_name, device) {
                    self.rooms.set(i, (name, room));
                    proof {
                        self.lemma_set_room(old(self)@, i as int, room_name@);
                    }
                    true
                } else {
                    false
                }
            },
            None => {
                proof {
                    lemma_table_lookup_none(self@, room_name@);
                }
                false
            },
        }
    }
}

/// The registry the server starts from: one room `R` holding a socket
/// `S` and a thermometer `T` in their delivery states.
pub open spec fn spec_restore_home() -> HomeView {
    seq![
        (
            "R"@,
            seq![
                (
                    "S"@,
                    DeviceView::Socket(
                        SocketView { voltage: "220"@, current: "0"@, on: false },
                    ),
                ),
                ("T"@, DeviceView::Thermometer(ThermometerView { temperature: "20"@ })),
            ],
        ),
    ]
}

impl Home {
    /// The seeded registry the server starts from.
    pub fn restore() -> (h: Home)
        ensures
            h@ == spec_restore_home(),
            h.name_spec() == "For home_server"@,
            h.wf(),
    {
        let mut h = Home::new("For home_server");
        let added_room = h.add_room("R");
        proof {
            assert(h@ =~~= seq![("R"@, Seq::<(Seq<char>, DeviceView)>::empty())]);
        }
        let added_socket = h.add_device("R", "S", Device::new_socket());
        proof {
            assert(h@ =~~= seq![
                (
                    "R"@,
                    seq![
                        (
                            "S"@,
                            DeviceView::Socket(
                                SocketView { voltage: "220"@, current: "0"@, on: false },
                            ),
                        ),
                    ],
                ),
            ]);
            assert("S"@ != "T"@) by {
                reveal_strlit("S");
                reveal_strlit("T");
                assert("S"@[0] == 'S');
                assert("T"@[0] == 'T');
            }
        }
        let ghost h2 = h@;
        proof {
            let rv = seq![
                (
                    "S"@,
                    DeviceView::Socket(SocketView { voltage: "220"@, current: "0"@, on: false }),
                ),
            ];
            assert(h2 == seq![("R"@, rv)]);
            assert(table_lookup(h2, "R"@) == Some(rv));
            assert(rv.drop_first() =~= Seq::<(Seq<char>, DeviceView)>::empty());
            assert(table_lookup(rv.drop_first(), "T"@) is None);
            assert(table_lookup(rv, "T"@) is None);
        }
        let added_thermometer = h.add_device("R", "T", Device::new_thermometer());
        proof {
            let rv = seq![
                (
                    "S"@,
                    DeviceView::Socket(SocketView { voltage: "220"@, current: "0"@, on: false }),
                ),
            ];
            let tv = DeviceView::Thermometer(ThermometerView { temperature: "20"@ });
            assert(h@ =~= table_set(h2, "R"@, rv.push(("T"@, tv))));
            assert(h@ =~~= spec_restore_home());
        }
        h
    }
}

/// A field of a report line, quoted.
pub open spec fn quoted_item(s: Seq<char>) -> Seq<char> {
    "\""@ + s + "\""@
}

/// A list of fields as one bracketed, comma-separated line part, each
/// field quoted.  Quotes or control characters inside a field are not
/// escaped.
pub open spec fn debug_list(items: Seq<Seq<char>>) -> Seq<char> {
    "["@ + sep_joined(items.map_values(|x: Seq<char>| quoted_item(x)), ", "@) + "]"@
}

/// A report line for one device: its serialized fields, indented.
pub open spec fn device_line(d: DeviceView) -> Seq<char> {
    "\t\t"@ + debug_list(crate::smart_device::spec_device_info(d))
}

/// The report line opening one room.
pub open spec fn room_header(name: Seq<char>) -> Seq<char> {
    "\tIn room '"@ + name + "'"@
}

/// The report lines of one room: its header, then one line per device.
pub open spec fn room_block(name: Seq<char>, rv: RoomView) -> Seq<Seq<char>> {
    seq![room_header(name)] + crate::table::table_vals(rv).map_values(|d: DeviceView| device_line(d))
}

/// The report lines of all rooms, in order.
pub open spec fn home_lines(h: HomeView) -> Seq<Seq<char>>
    decreases h.len(),
{
    if h.len() == 0 {
        Seq::empty()
    } else {
        room_block(h[0].0, h[0].1) + home_lines(h.drop_first())
    }
}

/// The whole report: a header naming the home, then every room's
/// lines, joined by line breaks.
pub open spec fn spec_report(name: Seq<char>, h: HomeView) -> Seq<char> {
    sep_joined(seq!["General report about "@ + name + ":"@] + home_lines(h), "\n"@)
}

/// One more room appends its block to the report lines.
proof fn lemma_home_lines_push(h: HomeView, e: (Seq<char>, RoomView))
    ensures
        home_lines(h.push(e)) =~= home_lines(h) + room_block(e.0, e.1),
    decreases h.len(),
{
    if h.len() == 0 {
        assert(h.push(e)[0] == e);
        assert(h.push(e).drop_first() =~= h);
    } else {
        assert(h.push(e)[0] == h[0]);
        assert(h.push(e).drop_first() =~= h.drop_first().push(e));
        lemma_home_lines_push(h.drop_first(), e);
    }
}

/// A field of a report line, quoted.
fn quoted_str(s: &str) -> (r: String)
    ensures
        r@ == quoted_item(s@),
{
    let mut out = "\"".to_owned();
    out.append(s);
    out.append("\"");
    proof {
        assert(out@ =~= quoted_item(s@));
    }
    out
}

/// A list of fields as one bracketed, comma-separated line part.
fn debug_list_str(items: &Vec<String>) -> (r: String)
    ensures
        r@ == debug_list(items.deep_view()),
{
    let n = items.len();
    let mut quoted: Vec<String> = Vec::new();
    let mut i: usize = 0;
    while i < n
        invariant
            i <= n,
            n == items@.len(),
            quoted@.len() == i,
            forall|k: int|
                0 <= k < i ==> quoted.deep_view()[k] == quoted_item(items.deep_view()[k]),
        decreases n - i,
    {
        let ghost pre = quoted.deep_view();
        quoted.push(quoted_str(items[i].as_str()));
        proof {
            assert(quoted.deep_view() =~= pre.push(quoted_item(items.deep_view()[i as int])));
        }
        i = i + 1;
    }
    let mut out = "[".to_owned();
    let body = crate::text::join_str(&quoted, ", ");
    out.append(body.as_str());
    out.append("]");
    proof {
        assert(quoted.deep_view() =~= items.deep_view().map_values(|x: Seq<char>| quoted_item(x)));
        assert(out@ =~= debug_list(items.deep_view()));
    }
    out
}

impl Home {
    /// A human-readable report: the home's name, then each room and
    /// the serialized state of each of its devices.
    pub fn report(&self) -> (r: String)
        ensures
            r@ == spec_report(self.name_spec(), self@),
    {
        let mut lines: Vec<String> = Vec::new();
        let mut header = "General report about ".to_owned();
        header.append(self.name.as_str());
        header.append(":");
        let ghost header_spec = "General report about "@ + self.name@ + ":"@;
        proof {
            assert(header@ =~= header_spec);
        }
        lines.push(header);
        proof {
            assert(self@.take(0) =~= Seq::<(Seq<char>, RoomView)>::empty());
            assert(lines.deep_view() =~= seq![header_spec] + home_lines(self@.take(0)));
        }
        let n = self.rooms.len();
        let mut i: usize = 0;
        while i < n
            invariant
                i <= n,
                n == self@.len(),
                lines.deep_view() =~= seq![header_spec] + home_lines(self@.take(i as int)),
            decreases n - i,
        {
            let mut room_line = "\tIn room '".to_owned();
            room_line.append(self.rooms[i].0.as_str());
            room_line.append("'");
            proof {
                assert(room_line@ =~= room_header(self@[i as int].0));
            }
            lines.push(room_line);
            let room = &self.rooms[i].1;
            let ghost rv = self@[i as int].1;
            let m = room.devices.len();
            let mut j: usize = 0;
            proof {
                assert(crate::table::table_vals(rv).map_values(|d: DeviceView| device_line(d)).take(
                    0,
                ) =~= Seq::<Seq<char>>::empty());
                assert(lines.deep_view() =~= seq![header_spec] + home_lines(self@.take(i as int))
                    + seq![room_header(self@[i as int].0)] + crate::table::table_vals(
                    rv,
                ).map_values(|d: DeviceView| device_line(d)).take(0));
            }
            while j < m
                invariant
                    j <= m,
                    i < n,
                    n == self@.len(),
                    m == rv.len(),
                    rv == self@[i as int].1,
                    room == &self.rooms[i as int].1,
                    room@ == rv,
                    lines.deep_view() =~= seq![header_spec] + home_lines(self@.take(i as int))
                        + seq![room_header(self@[i as int].0)] + crate::table::table_vals(
                        rv,
                    ).map_values(|d: DeviceView| device_line(d)).take(j as int),
                decreases m - j,
            {
                let info = room.devices[j].1.device_info();
                let mut line = "\t\t".to_owned();
                let body = debug_list_str(&info);
                line.append(body.as_str());
                proof {
                    assert(rv[j as int].1 == room.devices@[j as int].1@);
                    assert(line@ =~= device_line(rv[j as int].1));
                }
                let ghost pre_lines = lines.deep_view();
                lines.push(line);
                proof {
                    let vl = crate::table::table_vals(rv).map_values(
                        |d: DeviceView| device_line(d),
                    );
                    let prefix = seq![header_spec] + home_lines(self@.take(i as int)) + seq![
                        room_header(self@[i as int].0),
                    ];
                    let dl = device_line(rv[j as int].1);
                    assert(crate::table::table_vals(rv)[j as int] == rv[j as int].1);
                    assert(vl[j as int] == dl);
                    assert(lines.deep_view() =~= pre_lines.push(line@));
                    assert((prefix + vl.take(j as int)).push(dl) =~= prefix + vl.take(
                        j as int,
                    ).push(dl));
                    assert(vl.take(j + 1) =~= vl.take(j as int).push(vl[j as int]));
                    assert(lines.deep_view() =~= prefix + vl.take(j + 1));
                }
                j = j + 1;
            }
            proof {
                let vals_lines = crate::table::table_vals(rv).map_values(
                    |d: DeviceView| device_line(d),
                );
                assert(vals_lines.take(m as int) =~= vals_lines);
                lemma_home_lines_push(self@.take(i as int), self@[i as int]);
                assert(self@.take(i as int).push(self@[i as int]) =~= self@.take(i + 1));
                assert(lines.deep_view() =~= seq![header_spec] + home_lines(self@.take(i + 1)));
            }
            i = i + 1;
        }
        proof {
            assert(self@.take(n as int) =~= self@);
        }
        let r = crate::text::join_str(&lines, "\n");
        proof {
            assert(lines.deep_view() =~= seq![header_spec] + home_lines(self@));
            assert(r@ == spec_report(self.name_spec(), self@));
        }
        r
    }
}

} // verus!
