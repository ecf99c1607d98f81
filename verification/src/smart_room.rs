//! A room: a table of devices keyed by their names, unique within the
//! room.

use vstd::prelude::*;

use crate::smart_device::{Device, DeviceView};
use crate::table::{
    lemma_table_lookup_at, lemma_table_lookup_none, lemma_table_remove_absent,
    lemma_table_remove_at, table_keys, table_lookup, table_remove, table_unique, table_vals,
};
use crate::text::str_eq;

verus! {

/// A room of the registry: its devices, keyed by name.
#[derive(Debug, PartialEq, Eq)]
pub struct Room {
    pub devices: Vec<(String, Device)>,
}

impl View for Room {
    type V = Seq<(Seq<char>, DeviceView)>;

    open spec fn view(&self) -> Seq<(Seq<char>, DeviceView)> {
        self.devices@.map_values(|e: (String, Device)| (e.0@, e.1@))
    }
}

impl Room {
    /// Device names are unique within the room.
    pub open spec fn wf(&self) -> bool {
        table_unique(self@)
    }

    /// An empty room.
    pub fn new() -> (r: Room)
        ensures
            r@.len() == 0,
            r.wf(),
    {
        Room { devices: Vec::new() }
    }

    /// The index of the device entered under `name`, with nothing
    /// under that name before it.
    fn find_index(&self, name: &str) -> (r: Option<usize>)
        ensures
            match r {
                Some(i) => i < self@.len() && self@[i as int].0 == name@ && (forall|m: int|
                    0 <= m < i ==> self@[m].0 != name@),
                None => forall|m: int| 0 <= m < self@.len() ==> self@[m].0 != name@,
            },
    {
        let n = self.devices.len();
        let mut i: usize = 0;
        while i < n
            invariant
                i <= n,
                n == self@.len(),
                forall|m: int| 0 <= m < i ==> self@[m].0 != name@,
            decreases n - i,
        {
            if str_eq(self.devices[i].0.as_str(), name) {
                return Some(i);
            }
            i = i + 1;
        }
        None
    }

    /// The device names, in insertion order.
    pub fn device_names_list(&self) -> (r: Vec<String>)
        ensures
            r.deep_view() == table_keys(self@),
    {
        let n = self.devices.len();
        let mut r: Vec<String> = Vec::new();
        let mut i: usize = 0;
        while i < n
            invariant
                i <= n,
                n == self@.len(),
                r.deep_view() =~= table_keys(self@).take(i as int),
            decreases n - i,
        {
            r.push(self.devices[i].0.clone());
            i = i + 1;
        }
        proof {
            assert(table_keys(self@).take(n as int) =~= table_keys(self@));
        }
        r
    }

    /// The devices, in insertion order.
    pub fn device_list(&self) -> (r: Vec<Device>)
        ensures
            r@.map_values(|d: Device| d@) == table_vals(self@),
    {
        let n = self.devices.len();
        let mut r: Vec<Device> = Vec::new();
        let mut i: usize = 0;
        while i < n
            invariant
                i <= n,
                n == self@.len(),
                r@.map_values(|d: Device| d@) =~= table_vals(self@).take(i as int),
            decreases n - i,
        {
            r.push(self.devices[i].1.clone());
            i = i + 1;
        }
        proof {
            assert(table_vals(self@).take(n as int) =~= table_vals(self@));
        }
        r
    }

    /// Enters `device` under `unique_name` and returns an equal device,
    /// or returns nothing and changes nothing when the name is taken.
    pub fn add_device(&mut self, unique_name: &str, device: Device) -> (r: Option<Device>)
        ensures
            table_lookup(old(self)@, unique_name@) is Some ==> r is None && *final(self)
                == *old(self),
            table_lookup(old(self)@, unique_name@) is None ==> (match r {
                Some(d) => d@ == device@,
                None => false,
            }) && final(self)@ =~= old(self)@.push((unique_name@, device@)),
            old(self).wf() ==> final(self).wf(),
    {
        match self.find_index(unique_name) {
            Some(i) => {
                proof {
                    lemma_table_lookup_at(self@, unique_name@, i as int);
                }
                None
            },
            None => {
                proof {
                    lemma_table_lookup_none(self@, unique_name@);
                }
                let stored = device.clone();
                self.devices.push((unique_name.to_owned(), device));
                proof {
                    let prev = old(self)@;
                    let now = final(self)@;
                    assert(now =~= prev.push((unique_name@, device@)));
                    if old(self).wf() {
                        assert forall|i: int, j: int|
                            0 <= i < j < now.len() implies now[i].0 != now[j].0 by {
                            if j < prev.len() {
                                assert(prev[i].0 != prev[j].0);
                            } else {
                                assert(prev[i].0 != unique_name@);
                            }
                        }
                    }
                }
                Some(stored)
            },
        }
    }

    /// Takes the device entered under `device_name` out of the room, or
    /// returns nothing and changes nothing when there is none.
    pub fn remove_device(&mut self, device_name: &str) -> (r: Option<Device>)
        ensures
            final(self)@ =~= table_remove(old(self)@, device_name@),
            (match table_lookup(old(self)@, device_name@) {
                Some(dv) => r matches Some(d) && d@ == dv,
                None => r is None,
            }),
            old(self).wf() ==> final(self).wf(),
    {
        match self.find_index(device_name) {
            Some(i) => {
                proof {
                    lemma_table_lookup_at(self@, device_name@, i as int);
                    lemma_table_remove_at(self@, device_name@, i as int);
                }
                let e = self.devices.remove(i);
                proof {
                    let prev = old(self)@;
                    let now = final(self)@;
                    assert(now =~= prev.subrange(0, i as int) + prev.subrange(
                        i + 1,
                        prev.len() as int,
                    ));
                    if old(self).wf() {
                        assert forall|a: int, b: int|
                            0 <= a < b < now.len() implies now[a].0 != now[b].0 by {
                            let oa = if a < i {
                                a
                            } else {
                                a + 1
                            };
                            let ob = if b < i {
                                b
                            } else {
                                b + 1
                            };
                            assert(prev[oa].0 != prev[ob].0);
                        }
                    }
                }
                Some(e.1)
            },
            None => {
                proof {
                    lemma_table_lookup_none(self@, device_name@);
                    lemma_table_remove_absent(self@, device_name@);
                }
                None
            },
        }
    }

    /// An equal copy of the device entered under `device_name`, if any.
    pub fn get_device_by_name(&self, device_name: &str) -> (r: Option<Device>)
        ensures
            (match table_lookup(self@, device_name@) {
                Some(dv) => r matches Some(d) && d@ == dv,
                None => r is None,
            }),
    {
        match self.find_index(device_name) {
            Some(i) => {
                proof {
                    lemma_table_lookup_at(self@, device_name@, i as int);
                }
                Some(self.devices[i].1.clone())
            },
            None => {
                proof {
                    lemma_table_lookup_none(self@, device_name@);
                }
                None
            },
        }
    }

    /// Replaces the device entered under `device_name` and reports
    /// whether there was one; without one the room is unchanged.
    pub fn replace_device(&mut self, device_name: &str, device: Device) -> (r: bool)
        ensures
            r == (table_lookup(old(self)@, device_name@) is Some),
            r && old(self).wf() ==> final(self)@ =~= crate::table::table_set(
                old(self)@,
                device_name@,
                device@,
            ),
            !r ==> *final(self) == *old(self),
            old(self).wf() ==> final(self).wf(),
    {
        match self.find_index(device_name) {
            Some(i) => {
                proof {
                    lemma_table_lookup_at(self@, device_name@, i as int);
                }
                let name = self.devices[i].0.clone();
                self.devices.set(i, (name, device));
                proof {
                    let prev = old(self)@;
                    let now = final(self)@;
                    if old(self).wf() {
                        let want = crate::table::table_set(prev, device_name@, device@);
                        assert forall|m: int| 0 <= m < now.len() implies now[m] == want[m] by {
                            if m != i {
                                if prev[m].0 == device_name@ {
                                    if m > i {
                                        assert(prev[i as int].0 != prev[m].0);
                                    } else {
                                        assert(prev[m].0 != device_name@);
                                    }
                                }
                            }
                        }
                        assert(now =~= want);
                        assert forall|a: int, b: int|
                            0 <= a < b < now.len() implies now[a].0 != now[b].0 by {
                            assert(prev[a].0 != prev[b].0);
                        }
                    }
                }
                true
            },
            None => {
                proof {
                    lemma_table_lookup_none(self@, device_name@);
                }
                false
            },
        }
    }
}

impl Default for Room {
    /// An empty room.
    fn default() -> (r: Room)
        ensures
            r@.len() == 0,
            r.wf(),
    {
        Room::new()
    }
}

} // verus!
