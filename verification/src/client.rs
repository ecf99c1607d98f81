//! The client side of the command protocol: composing request text and
//! reading response text back into values.
//!
//! The transport sends one request frame and waits for exactly one
//! response frame; the functions here only build and read the text.
//! Response fields are taken as sent, without trimming.

use vstd::prelude::*;

use crate::error::RequestError;
use crate::numbers::is_number_text;
use crate::smart_device::{
    Device, DeviceInfo, DeviceView, Socket, SocketView, Thermometer, ThermometerView,
    spec_device_info,
};
use crate::text::{
    drop_trailing, joined_suffix, lemma_split_seq_len, split_seq, split_str, str_eq, trim_end_str,
};

verus! {

/// A failure of one client call.
#[derive(Debug, PartialEq, Eq)]
pub enum HomeError {
    /// The request/response exchange itself failed.
    WhenRequested(RequestError),
    /// The server answered `Err`; the field holds its message.
    ResponseErr(String),
    /// The response did not start with a known status marker.
    BadResponse,
}

impl HomeError {
    /// The error as text.
    pub fn message(&self) -> (r: String)
        ensures
            (match self {
                HomeError::WhenRequested(e) => r@ == "Request error: "@ + e.spec_message() + "."@,
                HomeError::ResponseErr(m) => r@ == "Error in response: "@ + m@ + "."@,
                HomeError::BadResponse => r@ == "Bad response."@,
            }),
    {
        match self {
            HomeError::WhenRequested(e) => {
                let mut out = "Request error: ".to_owned();
                let m = e.message();
                out.append(m.as_str());
                out.append(".");
                proof {
                    assert(out@ =~= "Request error: "@ + e.spec_message() + "."@);
                }
                out
            },
            HomeError::ResponseErr(m) => {
                let mut out = "Error in response: ".to_owned();
                out.append(m.as_str());
                out.append(".");
                proof {
                    assert(out@ =~= "Error in response: "@ + m@ + "."@);
                }
                out
            },
            HomeError::BadResponse => "Bad response.".to_owned(),
        }
    }
}

/// Field `i` of a response's fields, as sent; empty text past the end.
pub open spec fn raw_fld(fs: Seq<Seq<char>>, i: int) -> Seq<char> {
    if 0 <= i < fs.len() {
        fs[i]
    } else {
        Seq::empty()
    }
}

/// The items, each followed by one space.
pub open spec fn spaced(items: Seq<Seq<char>>) -> Seq<char>
    decreases items.len(),
{
    if items.len() == 0 {
        Seq::empty()
    } else {
        items[0] + " "@ + spaced(items.drop_first())
    }
}

/// Appending one more item extends the spaced text on the right.
proof fn lemma_spaced_push(items: Seq<Seq<char>>, x: Seq<char>)
    ensures
        spaced(items.push(x)) =~= spaced(items) + x + " "@,
    decreases items.len(),
{
    if items.len() == 0 {
        assert(items.push(x).drop_first() =~= items);
    } else {
        assert(items.push(x).drop_first() =~= items.drop_first().push(x));
        assert(items.push(x)[0] == items[0]);
        lemma_spaced_push(items.drop_first(), x);
    }
}

/// An `Err` response's message field list, read back as one message:
/// the fields joined by spaces, trailing whitespace dropped.
pub open spec fn err_msg_of(items: Seq<Seq<char>>) -> Seq<char> {
    drop_trailing(spaced(items))
}

/// The message text of an `Err` response's fields.
fn err_msg_from_fields(fields: &Vec<String>, from: usize) -> (r: String)
    requires
        from <= fields@.len(),
    ensures
        r@ == err_msg_of(fields.deep_view().skip(from as int)),
{
    let n = fields.len();
    let mut out = String::new();
    let mut i: usize = from;
    while i < n
        invariant
            from <= i <= n,
            n == fields@.len(),
            out@ == spaced(fields.deep_view().subrange(from as int, i as int)),
        decreases n - i,
    {
        out.append(fields[i].as_str());
        out.append(" ");
        proof {
            lemma_spaced_push(
                fields.deep_view().subrange(from as int, i as int),
                fields.deep_view()[i as int],
            );
            assert(fields.deep_view().subrange(from as int, i as int).push(
                fields.deep_view()[i as int],
            ) =~= fields.deep_view().subrange(from as int, i + 1));
            assert(out@ =~= spaced(fields.deep_view().subrange(from as int, i + 1)));
        }
        i = i + 1;
    }
    proof {
        assert(fields.deep_view().subrange(from as int, n as int) =~= fields.deep_view().skip(
            from as int,
        ));
    }
    trim_end_str(out.as_str())
}

/// The text of the `room list` request.
pub fn room_list_request() -> (r: String)
    ensures
        r@ == "room list"@,
{
    "room list".to_owned()
}

/// The text of a `device list` request for one room.
pub fn device_list_request(room: &str) -> (r: String)
    ensures
        r@ == "device list"@ + "///"@ + room@,
{
    let mut out = "device list".to_owned();
    out.append("///");
    out.append(room);
    proof {
        assert(out@ =~= "device list"@ + "///"@ + room@);
    }
    out
}

/// The text of a `get device` request for one device.
pub fn get_device_request(room: &str, device: &str) -> (r: String)
    ensures
        r@ == "get device"@ + "///"@ + room@ + "///"@ + device@,
{
    let mut out = "get device".to_owned();
    out.append("///");
    out.append(room);
    out.append("///");
    out.append(device);
    proof {
        assert(out@ =~= "get device"@ + "///"@ + room@ + "///"@ + device@);
    }
    out
}

/// The text of an `update device` request: the path, then the device's
/// serialized state.
pub fn update_device_request(room: &str, device_name: &str, device: &Device) -> (r: String)
    ensures
        r@ == "update device"@ + "///"@ + room@ + "///"@ + device_name@ + joined_suffix(
            spec_device_info(device@),
            "///"@,
        ),
{
    let mut out = "update device".to_owned();
    out.append("///");
    out.append(room);
    out.append("///");
    out.append(device_name);
    let info = device.device_info();
    crate::text::append_joined(&mut out, &info, "///");
    proof {
        assert(out@ =~= "update device"@ + "///"@ + room@ + "///"@ + device_name@ + joined_suffix(
            spec_device_info(device@),
            "///"@,
        ));
    }
    out
}

/// The device described by an `Ok` response's fields (those after the
/// status): a type tag, then the type-specific fields.  An unreadable
/// voltage or temperature, or an unknown tag, reads as `Unknown`; an
/// unreadable current reads as zero.
pub open spec fn spec_device_from_fields(fs: Seq<Seq<char>>) -> DeviceView {
    let tag = raw_fld(fs, 0);
    if tag == "socket"@ {
        if is_number_text(raw_fld(fs, 3)) {
            DeviceView::Socket(
                SocketView {
                    voltage: raw_fld(fs, 3),
                    current: if is_number_text(raw_fld(fs, 2)) {
                        raw_fld(fs, 2)
                    } else {
                        "0"@
                    },
                    on: raw_fld(fs, 1) == "on"@,
                },
            )
        } else {
            DeviceView::Unknown
        }
    } else if tag == "thermometer"@ {
        if is_number_text(raw_fld(fs, 1)) {
            DeviceView::Thermometer(ThermometerView { temperature: raw_fld(fs, 1) })
        } else {
            DeviceView::Unknown
        }
    } else {
        DeviceView::Unknown
    }
}

/// Field `i` of `fields`, cloned; empty text past the end.
fn field_or_empty(fields: &Vec<String>, i: usize) -> (r: String)
    ensures
        r@ == raw_fld(fields.deep_view(), i as int),
{
    if i < fields.len() {
        fields[i].clone()
    } else {
        String::new()
    }
}

/// Reads the fields of an `Ok` response (those after the status) back
/// into a device, as [`spec_device_from_fields`] describes them.
pub fn device_from_ok_response(fields: &Vec<String>) -> (d: Device)
    ensures
        d@ == spec_device_from_fields(fields.deep_view()),
{
    let tag = field_or_empty(fields, 0);
    if str_eq(tag.as_str(), "socket") {
        let voltage = field_or_empty(fields, 3);
        if crate::numbers::number_text(voltage.as_str()) {
            let on_off = field_or_empty(fields, 1);
            let on = str_eq(on_off.as_str(), "on");
            let current = field_or_empty(fields, 2);
            let current = if crate::numbers::number_text(current.as_str()) {
                current
            } else {
                "0".to_owned()
            };
            Device::Socket(Socket::new(voltage.as_str(), current.as_str(), on))
        } else {
            Device::Unknown
        }
    } else if str_eq(tag.as_str(), "thermometer") {
        let temperature = field_or_empty(fields, 1);
        if crate::numbers::number_text(temperature.as_str()) {
            Device::Thermometer(Thermometer::new(temperature.as_str()))
        } else {
            Device::Unknown
        }
    } else {
        Device::Unknown
    }
}

/// The fields of `fields` after the first, cloned.
fn rest_of(fields: &Vec<String>) -> (r: Vec<String>)
    requires
        fields@.len() >= 1,
    ensures
        r.deep_view() == fields.deep_view().drop_first(),
{
    let n = fields.len();
    let mut r: Vec<String> = Vec::new();
    let mut i: usize = 1;
    while i < n
        invariant
            1 <= i <= n,
            n == fields@.len(),
            r@ == fields@.subrange(1, i as int),
        decreases n - i,
    {
        r.push(fields[i].clone());
        proof {
            assert(fields@.subrange(1, i as int).push(fields@[i as int]) =~= fields@.subrange(
                1,
                i + 1,
            ));
        }
        i = i + 1;
    }
    proof {
        assert(r.deep_view() =~= fields.deep_view().drop_first());
    }
    r
}

/// Reads a response to `room list` or `device list`: the names on
/// `Ok`, the server's message on `Err`, and a bad-response error on
/// anything else.
pub fn list_from_stp_response(response: &str) -> (r: Result<Vec<String>, HomeError>)
    ensures
        ({
            let fs = split_seq(response@, "///"@);
            &&& fs[0] == "Ok"@ ==> (r matches Ok(v) && v.deep_view() == fs.drop_first())
            &&& fs[0] != "Ok"@ && fs[0] == "Err"@ ==> (r matches Err(e) && (e matches
            HomeError::ResponseErr(m) && m@ == err_msg_of(fs.drop_first())))
            &&& fs[0] != "Ok"@ && fs[0] != "Err"@ ==> (r matches Err(e) && e
                == HomeError::BadResponse)
        }),
{
    proof {
        reveal_strlit("///");
        lemma_split_seq_len(response@, "///"@);
    }
    let fields = split_str(response, "///");
    if str_eq(fields[0].as_str(), "Ok") {
        Ok(rest_of(&fields))
    } else if str_eq(fields[0].as_str(), "Err") {
        proof {
            assert(fields.deep_view().skip(1) =~= fields.deep_view().drop_first());
        }
        Err(HomeError::ResponseErr(err_msg_from_fields(&fields, 1)))
    } else {
        Err(HomeError::BadResponse)
    }
}

/// Reads a response to `get device`: the device on `Ok`, the server's
/// message on `Err`, and a bad-response error on anything else.
pub fn device_from_stp_response(response: &str) -> (r: Result<Device, HomeError>)
    ensures
        ({
            let fs = split_seq(response@, "///"@);
            &&& fs[0] == "Ok"@ ==> (r matches Ok(d) && d@ == spec_device_from_fields(
                fs.drop_first(),
            ))
            &&& fs[0] != "Ok"@ && fs[0] == "Err"@ ==> (r matches Err(e) && (e matches
            HomeError::ResponseErr(m) && m@ == err_msg_of(fs.drop_first())))
            &&& fs[0] != "Ok"@ && fs[0] != "Err"@ ==> (r matches Err(e) && e
                == HomeError::BadResponse)
        }),
{
    proof {
        reveal_strlit("///");
        lemma_split_seq_len(response@, "///"@);
    }
    let fields = split_str(response, "///");
    if str_eq(fields[0].as_str(), "Ok") {
        let rest = rest_of(&fields);
        Ok(device_from_ok_response(&rest))
    } else if str_eq(fields[0].as_str(), "Err") {
        proof {
            assert(fields.deep_view().skip(1) =~= fields.deep_view().drop_first());
        }
        Err(HomeError::ResponseErr(err_msg_from_fields(&fields, 1)))
    } else {
        Err(HomeError::BadResponse)
    }
}

} // verus!
