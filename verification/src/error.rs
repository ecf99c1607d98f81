//! The protocol's error taxonomy: transport, handshake and encoding
//! failures, fatal to one connection attempt each; and the client-side
//! request/response errors built from them.
//!
//! Transport failures carry the I/O error's text, handed in by the
//! code that touches the socket.

use vstd::prelude::*;

verus! {

/// A failure while sending a frame.
#[derive(Debug, PartialEq, Eq)]
pub enum SendError {
    /// The transport failed; the field holds the I/O error's text.
    Io(String),
}

/// A failure while receiving a frame.
#[derive(Debug, PartialEq, Eq)]
pub enum RecvError {
    /// The transport failed; the field holds the I/O error's text.
    Io(String),
    /// The payload was not valid UTF-8.
    BadEncoding,
    /// The peer closed the stream before the frame was complete.
    ConnectionClosed,
}

/// A failure while opening a handshaken connection.
#[derive(Debug, PartialEq, Eq)]
pub enum ConnectError {
    /// The transport failed; the field holds the I/O error's text.
    Io(String),
    /// The peer sent the wrong token; the field describes the bytes
    /// received.
    BadHandshake(String),
}

/// A failure while binding the listening endpoint.
#[derive(Debug, PartialEq, Eq)]
pub enum BindError {
    /// The transport failed; the field holds the I/O error's text.
    Io(String),
}

/// A failure of one request/response exchange.
#[derive(Debug, PartialEq, Eq)]
pub enum RequestError {
    /// Sending the request failed.
    Send(SendError),
    /// Receiving the response failed.
    Recv(RecvError),
}

impl SendError {
    /// What [`SendError::message`] returns.
    pub open spec fn spec_message(&self) -> Seq<char> {
        match self {
            SendError::Io(s) => "IO error: "@ + s@,
        }
    }

    /// The error as text.
    pub fn message(&self) -> (r: String)
        ensures
            r@ == self.spec_message(),
    {
        match self {
            SendError::Io(s) => {
                let mut out = "IO error: ".to_owned();
                out.append(s.as_str());
                out
            },
        }
    }
}

impl RecvError {
    /// What [`RecvError::message`] returns.
    pub open spec fn spec_message(&self) -> Seq<char> {
        match self {
            RecvError::Io(s) => "IO error: "@ + s@,
            RecvError::BadEncoding => "Bad encoding."@,
            RecvError::ConnectionClosed => "Connection closed."@,
        }
    }

    /// The error as text.
    pub fn message(&self) -> (r: String)
        ensures
            r@ == self.spec_message(),
    {
        match self {
            RecvError::Io(s) => {
                let mut out = "IO error: ".to_owned();
                out.append(s.as_str());
                out
            },
            RecvError::BadEncoding => "Bad encoding.".to_owned(),
            RecvError::ConnectionClosed => "Connection closed.".to_owned(),
        }
    }
}

impl ConnectError {
    /// What [`ConnectError::message`] returns.
    pub open spec fn spec_message(&self) -> Seq<char> {
        match self {
            ConnectError::Io(s) => "IO error: "@ + s@,
            ConnectError::BadHandshake(s) => "Bad handshake: "@ + s@,
        }
    }

    /// The error as text.
    pub fn message(&self) -> (r: String)
        ensures
            r@ == self.spec_message(),
    {
        match self {
            ConnectError::Io(s) => {
                let mut out = "IO error: ".to_owned();
                out.append(s.as_str());
                out
            },
            ConnectError::BadHandshake(s) => {
                let mut out = "Bad handshake: ".to_owned();
                out.append(s.as_str());
                out
            },
        }
    }
}

impl BindError {
    /// What [`BindError::message`] returns.
    pub open spec fn spec_message(&self) -> Seq<char> {
        match self {
            BindError::Io(s) => "IO error: "@ + s@,
        }
    }

    /// The error as text.
    pub fn message(&self) -> (r: String)
        ensures
            r@ == self.spec_message(),
    {
        match self {
            BindError::Io(s) => {
                let mut out = "IO error: ".to_owned();
                out.append(s.as_str());
                out
            },
        }
    }
}

impl RequestError {
    /// What [`RequestError::message`] returns: the text of the failure
    /// it carries.
    pub open spec fn spec_message(&self) -> Seq<char> {
        match self {
            RequestError::Send(e) => e.spec_message(),
            RequestError::Recv(e) => e.spec_message(),
        }
    }

    /// The error as text.
    pub fn message(&self) -> (r: String)
        ensures
            r@ == self.spec_message(),
    {
        match self {
            RequestError::Send(e) => e.message(),
            RequestError::Recv(e) => e.message(),
        }
    }
}

} // verus!
