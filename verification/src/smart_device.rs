//! Devices of the registry: a closed variant set of sockets and
//! thermometers, with an `Unknown` fallback used when parsing fails.
//!
//! Numeric attributes are held as the decimal text that travels on the
//! wire; whether a field of an update is accepted is decided by the
//! grammar in [`crate::numbers`], and an accepted field is stored as
//! received.

use vstd::prelude::*;

verus! {

/// The state of a socket, as specifications see it.
pub struct SocketView {
    pub voltage: Seq<char>,
    pub current: Seq<char>,
    pub on: bool,
}

/// The state of a thermometer, as specifications see it.
pub struct ThermometerView {
    pub temperature: Seq<char>,
}

/// The state of a device, as specifications see it.
pub enum DeviceView {
    Socket(SocketView),
    Thermometer(ThermometerView),
    Unknown,
}

/// A power socket: a switch state and two numeric attributes.
#[derive(Debug, PartialEq, Eq)]
pub struct Socket {
    pub voltage: String,
    pub current: String,
    pub on: bool,
}

/// A thermometer: one numeric attribute.
#[derive(Debug, PartialEq, Eq)]
pub struct Thermometer {
    pub temperature: String,
}

/// A device of the registry.
#[derive(Debug, PartialEq, Eq)]
pub enum Device {
    Socket(Socket),
    Thermometer(Thermometer),
    Unknown,
}

impl View for Socket {
    type V = SocketView;

    open spec fn view(&self) -> SocketView {
        SocketView { voltage: self.voltage@, current: self.current@, on: self.on }
    }
}

impl View for Thermometer {
    type V = ThermometerView;

    open spec fn view(&self) -> ThermometerView {
        ThermometerView { temperature: self.temperature@ }
    }
}

impl View for Device {
    type V = DeviceView;

    open spec fn view(&self) -> DeviceView {
        match self {
            Device::Socket(s) => DeviceView::Socket(s@),
            Device::Thermometer(t) => DeviceView::Thermometer(t@),
            Device::Unknown => DeviceView::Unknown,
        }
    }
}

/// The serialized state of a device: a type tag followed by the
/// type-specific fields, a socket as `socket`, `on`/`off`, current,
/// voltage, a thermometer as `thermometer`, temperature.
pub open spec fn spec_device_info(d: DeviceView) -> Seq<Seq<char>> {
    match d {
        DeviceView::Socket(s) => seq![
            "socket"@,
            if s.on {
                "on"@
            } else {
                "off"@
            },
            s.current,
            s.voltage,
        ],
        DeviceView::Thermometer(t) => seq!["thermometer"@, t.temperature],
        DeviceView::Unknown => seq!["Unknown device."@],
    }
}

/// Serialization of a device's state into separator-ready fields.
pub trait DeviceInfo {
    /// The fields that [`DeviceInfo::device_info`] returns.
    spec fn info_spec(&self) -> Seq<Seq<char>>;

    /// The device's state as a list of text fields.
    fn device_info(&self) -> (r: Vec<String>)
        ensures
            r.deep_view() == self.info_spec(),
    ;
}

impl Device {
    /// A socket in its delivery state: 220 volts, no current, switched
    /// off.
    pub fn new_socket() -> (d: Device)
        ensures
            d@ == DeviceView::Socket(SocketView { voltage: "220"@, current: "0"@, on: false }),
    {
        Device::Socket(Socket::new("220", "0", false))
    }

    /// A thermometer in its delivery state: 20 degrees.
    pub fn new_thermometer() -> (d: Device)
        ensures
            d@ == DeviceView::Thermometer(ThermometerView { temperature: "20"@ }),
    {
        Device::Thermometer(Thermometer::new("20"))
    }

    /// A placeholder report line.
    pub fn report(&self) -> (r: String)
        ensures
            r@ == "Device..."@,
    {
        let r = "Device...".to_owned();
        r
    }
}

impl DeviceInfo for Device {
    open spec fn info_spec(&self) -> Seq<Seq<char>> {
        spec_device_info(self@)
    }

    fn device_info(&self) -> (r: Vec<String>)
        ensures
            r.deep_view() == self.info_spec(),
    {
        match self {
            Device::Socket(s) => s.device_info(),
            Device::Thermometer(t) => t.device_info(),
            Device::Unknown => {
                let mut r: Vec<String> = Vec::new();
                r.push("Unknown device.".to_owned());
                proof {
                    assert(r.deep_view() =~= seq!["Unknown device."@]);
                }
                r
            },
        }
    }
}

impl DeviceInfo for Socket {
    open spec fn info_spec(&self) -> Seq<Seq<char>> {
        spec_device_info(DeviceView::Socket(self@))
    }

    fn device_info(&self) -> (r: Vec<String>)
        ensures
            r.deep_view() == self.info_spec(),
    {
        let mut r: Vec<String> = Vec::new();
        r.push("socket".to_owned());
        r.push(if self.on { "on".to_owned() } else { "off".to_owned() });
        r.push(self.current.clone());
        r.push(self.voltage.clone());
        proof {
            assert(r.deep_view() =~= self.info_spec());
        }
        r
    }
}

impl DeviceInfo for Thermometer {
    open spec fn info_spec(&self) -> Seq<Seq<char>> {
        spec_device_info(DeviceView::Thermometer(self@))
    }

    fn device_info(&self) -> (r: Vec<String>)
        ensures
            r.deep_view() == self.info_spec(),
    {
        let mut r: Vec<String> = Vec::new();
        r.push("thermometer".to_owned());
        r.push(self.temperature.clone());
        proof {
            assert(r.deep_view() =~= self.info_spec());
        }
        r
    }
}

impl Socket {
    /// A socket with the given attribute text and switch state.
    pub fn new(voltage: &str, current: &str, on: bool) -> (s: Socket)
        ensures
            s@ == (SocketView { voltage: voltage@, current: current@, on: on }),
    {
        Socket { voltage: voltage.to_owned(), current: current.to_owned(), on }
    }

    /// The voltage text.
    pub fn get_voltage(&self) -> (r: String)
        ensures
            r@ == self@.voltage,
    {
        self.voltage.clone()
    }

    /// Replaces the voltage text.
    pub fn set_voltage(&mut self, voltage: &str)
        ensures
            final(self)@ == (SocketView { voltage: voltage@, ..old(self)@ }),
    {
        self.voltage = voltage.to_owned();
    }

    /// The current text.
    pub fn get_current(&self) -> (r: String)
        ensures
            r@ == self@.current,
    {
        self.current.clone()
    }

    /// Replaces the current text.
    pub fn set_current(&mut self, current: &str)
        ensures
            final(self)@ == (SocketView { current: current@, ..old(self)@ }),
    {
        self.current = current.to_owned();
    }

    /// Whether the socket is switched on.
    pub fn is_on(&self) -> (r: bool)
        ensures
            r == self@.on,
    {
        self.on
    }

    /// Switches the socket on or off.
    pub fn switch(&mut self, on: bool)
        ensures
            final(self)@ == (SocketView { on: on, ..old(self)@ }),
    {
        self.on = on;
    }
}

impl Thermometer {
    /// A thermometer with the given temperature text.
    pub fn new(temperature: &str) -> (t: Thermometer)
        ensures
            t@ == (ThermometerView { temperature: temperature@ }),
    {
        Thermometer { temperature: temperature.to_owned() }
    }

    /// The thermometer with its temperature text replaced.
    pub fn temperature(self, temperature: &str) -> (t: Thermometer)
        ensures
            t@ == (ThermometerView { temperature: temperature@ }),
    {
        let mut t = self;
        t.set_temperature(temperature);
        t
    }

    /// The temperature text.
    pub fn get_temperature(&self) -> (r: String)
        ensures
            r@ == self@.temperature,
    {
        self.temperature.clone()
    }

    /// Replaces the temperature text.
    pub fn set_temperature(&mut self, temperature: &str)
        ensures
            final(self)@ == (ThermometerView { temperature: temperature@ }),
    {
        self.temperature = temperature.to_owned();
    }
}

impl Clone for Socket {
    /// An equal socket.
    fn clone(&self) -> (res: Socket)
        ensures
            res == *self,
    {
        Socket { voltage: self.voltage.clone(), current: self.current.clone(), on: self.on }
    }
}

impl Clone for Thermometer {
    /// An equal thermometer.
    fn clone(&self) -> (res: Thermometer)
        ensures
            res == *self,
    {
        Thermometer { temperature: self.temperature.clone() }
    }
}

impl Clone for Device {
    /// An equal device.
    fn clone(&self) -> (res: Device)
        ensures
            res == *self,
    {
        match self {
            Device::Socket(s) => Device::Socket(s.clone()),
            Device::Thermometer(t) => Device::Thermometer(t.clone()),
            Device::Unknown => Device::Unknown,
        }
    }
}

impl From<Socket> for Device {
    fn from(s: Socket) -> (d: Device) {
        Device::Socket(s)
    }
}

impl vstd::std_specs::convert::FromSpecImpl<Socket> for Device {
    open spec fn obeys_from_spec() -> bool {
        true
    }

    open spec fn from_spec(s: Socket) -> Device {
        Device::Socket(s)
    }
}

impl From<Thermometer> for Device {
    fn from(t: Thermometer) -> (d: Device) {
        Device::Thermometer(t)
    }
}

impl vstd::std_specs::convert::FromSpecImpl<Thermometer> for Device {
    open spec fn obeys_from_spec() -> bool {
        true
    }

    open spec fn from_spec(t: Thermometer) -> Device {
        Device::Thermometer(t)
    }
}

} // verus!
