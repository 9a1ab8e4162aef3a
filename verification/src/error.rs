//! What can go wrong in the routing core and the control plane.
use vstd::prelude::*;
use vstd::string::*;

verus! {

/// A failed operation, with what a client is told about it.
#[derive(Debug)]
pub enum Error {
    /// A tunnel could not be registered.
    Tunnel(String),
    /// Every port of the configured range is taken.
    NoPortsAvailable,
    /// No session has this id.
    SessionNotFound(String),
    /// A limit on tunnels has been reached.
    LimitExceeded(String),
    /// The client could not be authenticated.
    Auth(String),
    /// What came was no frame of the protocol.
    Protocol(String),
    /// What came was no message that can hold a frame: an I/O error of the kind of invalid data.
    InvalidData(String),
}

/// The view of an [`Error`].
#[verifier::ext_equal]
pub enum ErrorModel {
    Tunnel(Seq<char>),
    NoPortsAvailable,
    SessionNotFound(Seq<char>),
    LimitExceeded(Seq<char>),
    Auth(Seq<char>),
    Protocol(Seq<char>),
    InvalidData(Seq<char>),
}

impl View for Error {
    type V = ErrorModel;

    open spec fn view(&self) -> ErrorModel {
        match self {
            Error::Tunnel(s) => ErrorModel::Tunnel(s@),
            Error::NoPortsAvailable => ErrorModel::NoPortsAvailable,
            Error::SessionNotFound(s) => ErrorModel::SessionNotFound(s@),
            Error::LimitExceeded(s) => ErrorModel::LimitExceeded(s@),
            Error::Auth(s) => ErrorModel::Auth(s@),
            Error::Protocol(s) => ErrorModel::Protocol(s@),
            Error::InvalidData(s) => ErrorModel::InvalidData(s@),
        }
    }
}

/// The message of an error.
pub open spec fn error_text(e: ErrorModel) -> Seq<char> {
    match e {
        ErrorModel::Tunnel(s) => "tunnel error: "@ + s,
        ErrorModel::NoPortsAvailable => "no ports available"@,
        ErrorModel::SessionNotFound(s) => "session not found: "@ + s,
        ErrorModel::LimitExceeded(s) => "limit exceeded: "@ + s,
        ErrorModel::Auth(s) => "auth error: "@ + s,
        ErrorModel::Protocol(s) => "protocol error: "@ + s,
        ErrorModel::InvalidData(s) => "I/O error: "@ + s,
    }
}

impl Error {
    /// The message that a client or a log sees.
    pub fn message(&self) -> (r: String)
        ensures
            r@ == error_text(self@),
    {
        match self {
            Error::Tunnel(s) => "tunnel error: ".to_owned().concat(s.as_str()),
            Error::NoPortsAvailable => "no ports available".to_owned(),
            Error::SessionNotFound(s) => "session not found: ".to_owned().concat(s.as_str()),
            Error::LimitExceeded(s) => "limit exceeded: ".to_owned().concat(s.as_str()),
            Error::Auth(s) => "auth error: ".to_owned().concat(s.as_str()),
            Error::Protocol(s) => "protocol error: ".to_owned().concat(s.as_str()),
            Error::InvalidData(s) => "I/O error: ".to_owned().concat(s.as_str()),
        }
    }
}

} // verus!
