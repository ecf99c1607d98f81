//! The command dispatcher: requests parsed into fields, the four
//! commands of the protocol, and the response text each produces.
//!
//! A request is text whose fields are joined by the separator `///`;
//! the first field names the command.  A response starts with `Ok` or
//! `Err`.  Reading commands leave the registry as it is; `update
//! device` rewrites one device in place.  A request whose type tag does
//! not match the stored device's variant is answered with an error and
//! changes nothing.

use vstd::prelude::*;

use crate::numbers::is_number_text;
use crate::smart_device::{
    Device, DeviceInfo, DeviceView, Socket, SocketView, Thermometer, ThermometerView,
    spec_device_info,
};
use crate::smart_home::{Home, HomeView, RoomView};
use crate::table::{lemma_table_set_lookup, table_keys, table_lookup, table_set};
use crate::text::{joined_suffix, split_seq, split_str, str_eq, trim_str, trimmed};

verus! {

/// A request, split into its raw fields; [`Request::proceed`] hands
/// them out trimmed, one at a time.
pub struct Request {
    pub fields: Vec<String>,
    pub pos: usize,
}

impl Request {
    /// The raw fields not yet handed out.
    pub open spec fn remaining(&self) -> Seq<Seq<char>> {
        if self.pos as int <= self.fields.deep_view().len() {
            self.fields.deep_view().skip(self.pos as int)
        } else {
            Seq::empty()
        }
    }

    /// The next raw field, or empty text when none is left.
    pub open spec fn peek(&self) -> Seq<char> {
        if (self.pos as int) < self.fields.deep_view().len() {
            self.fields.deep_view()[self.pos as int]
        } else {
            Seq::empty()
        }
    }

    /// The request text split at the separator.
    pub fn new(raw: &str) -> (r: Request)
        ensures
            r.fields.deep_view() == split_seq(raw@, "///"@),
            r.pos == 0,
            r.remaining() == split_seq(raw@, "///"@),
    {
        proof {
            reveal_strlit("///");
        }
        let fields = split_str(raw, "///");
        let r = Request { fields, pos: 0 };
        proof {
            assert(r.remaining() =~= r.fields.deep_view());
        }
        r
    }

    /// The next field, trimmed; empty text once the fields are spent.
    pub fn proceed(&mut self) -> (r: String)
        ensures
            final(self).fields == old(self).fields,
            r@ == trimmed(old(self).peek()),
            old(self).pos < old(self).fields@.len() ==> final(self).pos == old(self).pos + 1,
            old(self).pos >= old(self).fields@.len() ==> final(self).pos == old(self).pos,
    {
        if self.pos < self.fields.len() {
            let f = trim_str(self.fields[self.pos].as_str());
            self.pos = self.pos + 1;
            f
        } else {
            String::new()
        }
    }
}

/// Field `i` of a request's remaining fields, trimmed; empty text past
/// the end.
pub open spec fn fld(fs: Seq<Seq<char>>, i: int) -> Seq<char> {
    if 0 <= i < fs.len() {
        trimmed(fs[i])
    } else {
        Seq::empty()
    }
}

/// The error message for a room that is not in the registry.
pub open spec fn room_not_found_msg(room: Seq<char>) -> Seq<char> {
    "Room '"@ + room + "' not found."@
}

/// The error message for a device that is not in its room.
pub open spec fn device_not_found_msg(room: Seq<char>, device: Seq<char>) -> Seq<char> {
    "Device '"@ + device + "' not found in room '"@ + room + "'."@
}

/// An `Err` response carrying one message field.
pub open spec fn err_response(msg: Seq<char>) -> Seq<char> {
    "Err"@ + "///"@ + msg
}

/// An `Ok` response carrying the given fields.
pub open spec fn ok_response(items: Seq<Seq<char>>) -> Seq<char> {
    "Ok"@ + joined_suffix(items, "///"@)
}

/// The response to `room list`: `Ok` and every room name.
pub open spec fn spec_room_list(h: HomeView) -> Seq<char> {
    ok_response(table_keys(h))
}

/// The response to `device list`: `Ok` and every device name of the
/// room, or an error naming the missing room.
pub open spec fn spec_device_list(h: HomeView, room: Seq<char>) -> Seq<char> {
    match table_lookup(h, room) {
        Some(rv) => ok_response(table_keys(rv)),
        None => err_response(room_not_found_msg(room)),
    }
}

/// The response to `get device`: `Ok` and the device's serialized
/// state, or an error naming the missing device and room.
pub open spec fn spec_get_device(h: HomeView, room: Seq<char>, device: Seq<char>) -> Seq<char> {
    match table_lookup(h, room) {
        Some(rv) => match table_lookup(rv, device) {
            Some(dv) => ok_response(spec_device_info(dv)),
            None => err_response(device_not_found_msg(room, device)),
        },
        None => err_response(device_not_found_msg(room, device)),
    }
}

/// One device updated from an update request's type-specific fields:
/// the switch state is taken as given, and each numeric field replaces
/// its attribute exactly when it is well-formed number text.  `None`
/// when the type tag does not name the stored device's variant.
pub open spec fn spec_update_device_fields(
    d: DeviceView,
    tag: Seq<char>,
    a: Seq<char>,
    b: Seq<char>,
    c: Seq<char>,
) -> Option<DeviceView> {
    match d {
        DeviceView::Socket(s) => {
            if tag == "socket"@ {
                Some(
                    DeviceView::Socket(
                        SocketView {
                            on: a == "on"@,
                            current: if is_number_text(b) {
                                b
                            } else {
                                s.current
                            },
                            voltage: if is_number_text(c) {
                                c
                            } else {
                                s.voltage
                            },
                        },
                    ),
                )
            } else {
                None
            }
        },
        DeviceView::Thermometer(t) => {
            if tag == "thermometer"@ {
                Some(
                    DeviceView::Thermometer(
                        ThermometerView {
                            temperature: if is_number_text(a) {
                                a
                            } else {
                                t.temperature
                            },
                        },
                    ),
                )
            } else {
                None
            }
        },
        DeviceView::Unknown => None,
    }
}

/// The outcome of `update device`: the registry afterwards and the
/// response.  A missing device leaves the registry unchanged and names
/// it; a type tag that does not match answers with an error; otherwise
/// the device is rewritten and the answer is a bare `Ok`.
pub open spec fn spec_update_device(h: HomeView, fs: Seq<Seq<char>>) -> (HomeView, Seq<char>) {
    let room = fld(fs, 1);
    let device = fld(fs, 2);
    match table_lookup(h, room) {
        Some(rv) => match table_lookup(rv, device) {
            Some(dv) => {
                match spec_update_device_fields(dv, fld(fs, 3), fld(fs, 4), fld(fs, 5), fld(fs, 6)) {
                    Some(nd) => (table_set(h, room, table_set(rv, device, nd)), "Ok"@),
                    None => (h, err_response("Device type mismatch."@)),
                }
            },
            None => (h, err_response(device_not_found_msg(room, device))),
        },
        None => (h, err_response(device_not_found_msg(room, device))),
    }
}

/// The dispatcher: what one request does to the registry and answers.
pub open spec fn spec_respond(h: HomeView, fs: Seq<Seq<char>>) -> (HomeView, Seq<char>) {
    let cmd = fld(fs, 0);
    if cmd == "room list"@ {
        (h, spec_room_list(h))
    } else if cmd == "device list"@ {
        (h, spec_device_list(h, fld(fs, 1)))
    } else if cmd == "get device"@ {
        (h, spec_get_device(h, fld(fs, 1), fld(fs, 2)))
    } else if cmd == "update device"@ {
        spec_update_device(h, fs)
    } else {
        (h, err_response("Bad command"@))
    }
}

/// An `Err` response naming a missing room.
fn err_room_response(room: &str) -> (r: String)
    ensures
        r@ == err_response(room_not_found_msg(room@)),
{
    let mut out = "Err".to_owned();
    out.append("///");
    out.append("Room '");
    out.append(room);
    out.append("' not found.");
    proof {
        assert(out@ =~= err_response(room_not_found_msg(room@)));
    }
    out
}

/// An `Err` response naming a missing device and its room.
fn err_device_response(room: &str, device: &str) -> (r: String)
    ensures
        r@ == err_response(device_not_found_msg(room@, device@)),
{
    let mut out = "Err".to_owned();
    out.append("///");
    out.append("Device '");
    out.append(device);
    out.append("' not found in room '");
    out.append(room);
    out.append("'.");
    proof {
        assert(out@ =~= err_response(device_not_found_msg(room@, device@)));
    }
    out
}

/// An `Err` response for a type tag that does not match the stored
/// device.
fn err_mismatch_response() -> (r: String)
    ensures
        r@ == err_response("Device type mismatch."@),
{
    let mut out = "Err".to_owned();
    out.append("///");
    out.append("Device type mismatch.");
    proof {
        assert(out@ =~= err_response("Device type mismatch."@));
    }
    out
}

/// The `Err` response to a command name the dispatcher does not know.
fn err_bad_command_response() -> (r: String)
    ensures
        r@ == err_response("Bad command"@),
{
    let mut out = "Err".to_owned();
    out.append("///");
    out.append("Bad command");
    proof {
        assert(out@ =~= err_response("Bad command"@));
    }
    out
}

/// An `Ok` response carrying the given fields.
fn ok_with_items(items: &Vec<String>) -> (r: String)
    ensures
        r@ == ok_response(items.deep_view()),
{
    let mut out = "Ok".to_owned();
    crate::text::append_joined(&mut out, items, "///");
    out
}

/// Answers `room list`: `Ok` and every room name.
pub fn room_list(home: &Home) -> (resp: String)
    ensures
        resp@ == spec_room_list(home@),
{
    let names = home.room_names_list();
    ok_with_items(&names)
}

/// Answers `device list`: `Ok` and every device name of the room, or
/// an error naming the missing room.
pub fn device_list(home: &Home, room: &str) -> (resp: String)
    ensures
        resp@ == spec_device_list(home@, room@),
{
    match home.get_room_by_name(room) {
        Some(r) => {
            let names = r.device_names_list();
            ok_with_items(&names)
        },
        None => err_room_response(room),
    }
}

/// Answers `get device`: `Ok` and the device's serialized state, or an
/// error naming the missing device and room.
pub fn get_device(home: &Home, room: &str, device: &str) -> (resp: String)
    ensures
        resp@ == spec_get_device(home@, room@, device@),
{
    match home.get_device_by_path(room, device) {
        Some(d) => {
            let info = d.device_info();
            ok_with_items(&info)
        },
        None => err_device_response(room, device),
    }
}

/// The outcome of `update device` for explicit arguments: the registry
/// afterwards and the response text.
pub open spec fn spec_apply_update(
    h: HomeView,
    room: Seq<char>,
    device: Seq<char>,
    tag: Seq<char>,
    a: Seq<char>,
    b: Seq<char>,
    c: Seq<char>,
) -> (HomeView, Seq<char>) {
    match table_lookup(h, room) {
        Some(rv) => match table_lookup(rv, device) {
            Some(dv) => {
                match spec_update_device_fields(dv, tag, a, b, c) {
                    Some(nd) => (table_set(h, room, table_set(rv, device, nd)), "Ok"@),
                    None => (h, err_response("Device type mismatch."@)),
                }
            },
            None => (h, err_response(device_not_found_msg(room, device))),
        },
        None => (h, err_response(device_not_found_msg(room, device))),
    }
}

/// Answers `update device` for a room and device name, taking the type
/// tag and the type-specific fields from the request.  The response
/// holds for any registry; the registry afterwards is stated for a
/// well-formed one.
pub fn update_device(home: &mut Home, room: &str, device: &str, r: &mut Request) -> (resp: String)
    ensures
        ({
            let rem = old(r).remaining();
            let spec = spec_apply_update(
                old(home)@,
                room@,
                device@,
                fld(rem, 0),
                fld(rem, 1),
                fld(rem, 2),
                fld(rem, 3),
            );
            &&& resp@ == spec.1
            &&& old(home).wf() ==> final(home)@ == spec.0
        }),
        old(home).wf() ==> final(home).wf(),
        final(home).name_spec() == old(home).name_spec(),
{
    let ghost rem = old(r).remaining();
    match home.get_device_by_path(room, device) {
        None => err_device_response(room, device),
        Some(d) => {
            let mut updated = d;
            if update_from_stp_request(&mut updated, r) {
                let replaced = home.replace_device_by_path(room, device, updated);
                "Ok".to_owned()
            } else {
                err_mismatch_response()
            }
        },
    }
}

/// Applies an update request's type tag and type-specific fields to a
/// device in place: the switch state as given, each numeric field
/// exactly when it is well-formed number text.  Reports `false` and
/// leaves the device alone when the tag does not name its variant.
pub fn update_from_stp_request(device: &mut Device, r: &mut Request) -> (ok: bool)
    ensures
        ({
            let rem = old(r).remaining();
            match spec_update_device_fields(
                old(device)@,
                fld(rem, 0),
                fld(rem, 1),
                fld(rem, 2),
                fld(rem, 3),
            ) {
                Some(nd) => ok && final(device)@ == nd,
                None => !ok && *final(device) == *old(device),
            }
        }),
{
    let ghost rem = old(r).remaining();
    let ghost dv = old(r).fields.deep_view();
    let ghost p = old(r).pos as int;
    let tag = r.proceed();
    proof {
        assert(tag@ == fld(rem, 0)) by {
            if p < dv.len() {
                assert(rem[0] == dv[p]);
            }
        }
    }
    match device {
        Device::Socket(s) => {
            if str_eq(tag.as_str(), "socket") {
                let onf = r.proceed();
                let cur = r.proceed();
                let vol = r.proceed();
                proof {
                    assert(onf@ == fld(rem, 1)) by {
                        if p + 1 < dv.len() {
                            assert(rem[1] == dv[p + 1]);
                        }
                    }
                    assert(cur@ == fld(rem, 2)) by {
                        if p + 2 < dv.len() {
                            assert(rem[2] == dv[p + 2]);
                        }
                    }
                    assert(vol@ == fld(rem, 3)) by {
                        if p + 3 < dv.len() {
                            assert(rem[3] == dv[p + 3]);
                        }
                    }
                }
                s.switch(str_eq(onf.as_str(), "on"));
                if crate::numbers::number_text(cur.as_str()) {
                    s.set_current(cur.as_str());
                }
                if crate::numbers::number_text(vol.as_str()) {
                    s.set_voltage(vol.as_str());
                }
                true
            } else {
                false
            }
        },
        Device::Thermometer(t) => {
            if str_eq(tag.as_str(), "thermometer") {
                let temp = r.proceed();
                proof {
                    assert(temp@ == fld(rem, 1)) by {
                        if p + 1 < dv.len() {
                            assert(rem[1] == dv[p + 1]);
                        }
                    }
                }
                if crate::numbers::number_text(temp.as_str()) {
                    t.set_temperature(temp.as_str());
                }
                true
            } else {
                false
            }
        },
        Device::Unknown => false,
    }
}

/// Handles one request against the registry: parses the command, runs
/// it, and returns the response text.  The response holds for any
/// registry; what the registry becomes is stated for a well-formed
/// one, and commands other than `update device` leave it untouched.
pub fn respond(home: &mut Home, r: &mut Request) -> (resp: String)
    ensures
        resp@ == spec_respond(old(home)@, old(r).remaining()).1,
        old(home).wf() ==> final(home)@ == spec_respond(old(home)@, old(r).remaining()).0,
        old(home).wf() ==> final(home).wf(),
        final(home).name_spec() == old(home).name_spec(),
        fld(old(r).remaining(), 0) != "update device"@ ==> *final(home) == *old(home),
{
    let ghost fs = old(r).remaining();
    let ghost dv = old(r).fields.deep_view();
    let ghost p = old(r).pos as int;
    let cmd = r.proceed();
    proof {
        assert(cmd@ == fld(fs, 0)) by {
            if p < dv.len() {
                assert(fs[0] == dv[p]);
            }
        }
    }
    if str_eq(cmd.as_str(), "room list") {
        room_list(home)
    } else if str_eq(cmd.as_str(), "device list") {
        let room = r.proceed();
        proof {
            assert(room@ == fld(fs, 1)) by {
                if p + 1 < dv.len() {
                    assert(fs[1] == dv[p + 1]);
                }
            }
        }
        device_list(home, room.as_str())
    } else if str_eq(cmd.as_str(), "get device") {
        let room = r.proceed();
        let device = r.proceed();
        proof {
            assert(room@ == fld(fs, 1)) by {
                if p + 1 < dv.len() {
                    assert(fs[1] == dv[p + 1]);
                }
            }
            assert(device@ == fld(fs, 2)) by {
                if p + 2 < dv.len() {
                    assert(fs[2] == dv[p + 2]);
                }
            }
        }
        get_device(home, room.as_str(), device.as_str())
    } else if str_eq(cmd.as_str(), "update device") {
        let room = r.proceed();
        let device = r.proceed();
        proof {
            assert(room@ == fld(fs, 1)) by {
                if p + 1 < dv.len() {
                    assert(fs[1] == dv[p + 1]);
                }
            }
            assert(device@ == fld(fs, 2)) by {
                if p + 2 < dv.len() {
                    assert(fs[2] == dv[p + 2]);
                }
            }
            assert forall|i: int| 0 <= i implies fld(r.remaining(), i) == fld(fs, 3 + i) by {
                if p + 3 + i < dv.len() {
                    assert(r.remaining()[i] == dv[p + 3 + i]);
                    assert(fs[3 + i] == dv[p + 3 + i]);
                }
            }
        }
        update_device(home, room.as_str(), device.as_str(), r)
    } else {
        err_bad_command_response()
    }
}

/// A request's command, parsed into structured form before dispatch.
pub enum Command {
    /// `room list`, with no arguments.
    RoomList,
    /// `device list`, naming a room.
    DeviceList { room: String },
    /// `get device`, naming a room and a device.
    GetDevice { room: String, device: String },
    /// `update device`, naming a room and a device; the type tag and
    /// the type-specific fields stay in the request.
    UpdateDevice { room: String, device: String },
    /// An unrecognized command name.
    Bad,
}

/// Parses the command name and its name arguments from a request.
/// Reading commands take a shared view of the registry; only
/// [`Command::UpdateDevice`] mutates it.
pub fn parse_command(r: &mut Request) -> (c: Command)
    ensures
        final(r).fields == old(r).fields,
        ({
            let fs = old(r).remaining();
            match c {
                Command::RoomList => fld(fs, 0) == "room list"@,
                Command::DeviceList { room } => fld(fs, 0) == "device list"@ && room@ == fld(
                    fs,
                    1,
                ),
                Command::GetDevice { room, device } => fld(fs, 0) == "get device"@ && room@ == fld(
                    fs,
                    1,
                ) && device@ == fld(fs, 2),
                Command::UpdateDevice { room, device } => fld(fs, 0) == "update device"@ && room@
                    == fld(fs, 1) && device@ == fld(fs, 2) && (forall|i: int|
                    0 <= i ==> fld(final(r).remaining(), i) == fld(fs, 3 + i)),
                Command::Bad => fld(fs, 0) != "room list"@ && fld(fs, 0) != "device list"@ && fld(
                    fs,
                    0,
                ) != "get device"@ && fld(fs, 0) != "update device"@,
            }
        }),
{
    let ghost fs = old(r).remaining();
    let ghost dv = old(r).fields.deep_view();
    let ghost p = old(r).pos as int;
    let cmd = r.proceed();
    proof {
        assert(cmd@ == fld(fs, 0)) by {
            if p < dv.len() {
                assert(fs[0] == dv[p]);
            }
        }
    }
    if str_eq(cmd.as_str(), "room list") {
        Command::RoomList
    } else if str_eq(cmd.as_str(), "device list") {
        let room = r.proceed();
        proof {
            assert(room@ == fld(fs, 1)) by {
                if p + 1 < dv.len() {
                    assert(fs[1] == dv[p + 1]);
                }
            }
        }
        Command::DeviceList { room }
    } else if str_eq(cmd.as_str(), "get device") {
        let room = r.proceed();
        let device = r.proceed();
        proof {
            assert(room@ == fld(fs, 1)) by {
                if p + 1 < dv.len() {
                    assert(fs[1] == dv[p + 1]);
                }
            }
            assert(device@ == fld(fs, 2)) by {
                if p + 2 < dv.len() {
                    assert(fs[2] == dv[p + 2]);
                }
            }
        }
        Command::GetDevice { room, device }
    } else if str_eq(cmd.as_str(), "update device") {
        let room = r.proceed();
        let device = r.proceed();
        proof {
            assert(room@ == fld(fs, 1)) by {
                if p + 1 < dv.len() {
                    assert(fs[1] == dv[p + 1]);
                }
            }
            assert(device@ == fld(fs, 2)) by {
                if p + 2 < dv.len() {
                    assert(fs[2] == dv[p + 2]);
                }
            }
            assert forall|i: int| 0 <= i implies fld(r.remaining(), i) == fld(fs, 3 + i) by {
                if p + 3 + i < dv.len() {
                    assert(r.remaining()[i] == dv[p + 3 + i]);
                    assert(fs[3 + i] == dv[p + 3 + i]);
                }
            }
        }
        Command::UpdateDevice { room, device }
    } else {
        Command::Bad
    }
}

/// An `Err` response is never an `Ok` response: the status markers
/// differ.
pub proof fn lemma_err_is_not_ok(msg: Seq<char>, items: Seq<Seq<char>>)
    ensures
        err_response(msg) != ok_response(items),
{
    reveal_strlit("Err");
    reveal_strlit("Ok");
    assert(err_response(msg)[0] == 'E');
    assert(ok_response(items)[0] == 'O');
}

/// Law: `room list` neither changes the registry nor depends on
/// anything but it, so repeated calls with no mutation between them
/// answer identically.
pub proof fn lemma_room_list_idempotent(h: HomeView, fs1: Seq<Seq<char>>, fs2: Seq<Seq<char>>)
    requires
        fld(fs1, 0) == "room list"@,
        fld(fs2, 0) == "room list"@,
    ensures
        spec_respond(h, fs1).0 == h,
        spec_respond(h, fs1).1 == spec_respond(h, fs2).1,
{
}

/// Law: `get device` for a missing room, or a missing device in an
/// existing room, answers with the error naming the device and room,
/// and never with any `Ok` response.
pub proof fn lemma_get_device_not_found(h: HomeView, room: Seq<char>, device: Seq<char>)
    requires
        (match table_lookup(h, room) {
            Some(rv) => table_lookup(rv, device) is None,
            None => true,
        }),
    ensures
        spec_get_device(h, room, device) == err_response(device_not_found_msg(room, device)),
        forall|items: Seq<Seq<char>>|
            spec_get_device(h, room, device) != #[trigger] ok_response(items),
{
    assert forall|items: Seq<Seq<char>>|
        spec_get_device(h, room, device) != #[trigger] ok_response(items) by {
        lemma_err_is_not_ok(device_not_found_msg(room, device), items);
    }
}

/// Law: after an update that switches a socket and sets both of its
/// numeric fields to well-formed values, reading the device back
/// returns exactly the state sent.
pub proof fn lemma_update_visibility(
    h: HomeView,
    room: Seq<char>,
    device: Seq<char>,
    on_f: Seq<char>,
    cur: Seq<char>,
    vol: Seq<char>,
)
    requires
        (match table_lookup(h, room) {
            Some(rv) => (match table_lookup(rv, device) {
                Some(dv) => dv is Socket,
                None => false,
            }),
            None => false,
        }),
        is_number_text(cur),
        is_number_text(vol),
    ensures
        ({
            let upd = spec_apply_update(h, room, device, "socket"@, on_f, cur, vol);
            &&& upd.1 == "Ok"@
            &&& spec_get_device(upd.0, room, device) == ok_response(
                seq![
                    "socket"@,
                    if on_f == "on"@ {
                        "on"@
                    } else {
                        "off"@
                    },
                    cur,
                    vol,
                ],
            )
        }),
{
    if let Some(rv) = table_lookup(h, room) {
        if let Some(dv) = table_lookup(rv, device) {
            let nd = DeviceView::Socket(SocketView { on: on_f == "on"@, current: cur, voltage: vol });
            assert(spec_update_device_fields(dv, "socket"@, on_f, cur, vol) == Some(nd));
            lemma_table_set_lookup(h, room, table_set(rv, device, nd), room);
            lemma_table_set_lookup(rv, device, nd, device);
            assert(spec_device_info(nd) =~= seq![
                "socket"@,
                if on_f == "on"@ {
                    "on"@
                } else {
                    "off"@
                },
                cur,
                vol,
            ]);
        }
    }
}

/// The device reached by a room and device name, if both exist.
pub open spec fn path_lookup(h: HomeView, room: Seq<char>, device: Seq<char>) -> Option<
    DeviceView,
> {
    match table_lookup(h, room) {
        Some(rv) => table_lookup(rv, device),
        None => None,
    }
}

/// Law: an update rewrites at most the device it names; every other
/// path reads afterwards exactly as it read before, so no observer
/// sees a half-written registry.
pub proof fn lemma_update_touches_only_its_target(
    h: HomeView,
    room: Seq<char>,
    device: Seq<char>,
    tag: Seq<char>,
    a: Seq<char>,
    b: Seq<char>,
    c: Seq<char>,
    other_room: Seq<char>,
    other_device: Seq<char>,
)
    requires
        other_room != room || other_device != device,
    ensures
        path_lookup(spec_apply_update(h, room, device, tag, a, b, c).0, other_room, other_device)
            == path_lookup(h, other_room, other_device),
{
    let upd = spec_apply_update(h, room, device, tag, a, b, c);
    if upd.0 != h {
        if let Some(rv) = table_lookup(h, room) {
            if let Some(dv) = table_lookup(rv, device) {
                if let Some(nd) = spec_update_device_fields(dv, tag, a, b, c) {
                    let new_rv = table_set(rv, device, nd);
                    lemma_table_set_lookup(h, room, new_rv, other_room);
                    if other_room == room {
                        lemma_table_set_lookup(rv, device, nd, other_device);
                    }
                }
            }
        }
    }
}

/// Law: the reading commands leave the registry exactly as it was;
/// only `update device` can change it.
pub proof fn lemma_read_commands_preserve_registry(h: HomeView, fs: Seq<Seq<char>>)
    ensures
        fld(fs, 0) != "update device"@ ==> spec_respond(h, fs).0 == h,
        fld(fs, 0) == "room list"@ || fld(fs, 0) == "device list"@ || fld(fs, 0)
            == "get device"@ ==> spec_respond(h, fs).0 == h,
{
    reveal_strlit("room list");
    reveal_strlit("device list");
    reveal_strlit("get device");
    reveal_strlit("update device");
    assert("room list"@.len() != "update device"@.len());
    assert("device list"@.len() != "update device"@.len());
    assert("get device"@.len() != "update device"@.len());
}

} // verus!
