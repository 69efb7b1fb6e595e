use vstd::prelude::*;

verus! {

/// Declares `std::io::Error` so that the error type can carry it.
#[verifier::external_type_specification]
#[verifier::external_body]
pub struct ExIoError(std::io::Error);

/// The errors of the library.
#[derive(Debug)]
pub enum VpnError {
    Io(std::io::Error),
    Encryption(String),
    Protocol(String),
    Config(String),
    Network(String),
    KeyExchange(String),
    GenericError(String),
    ClientNotFound,
}

impl VpnError {
    /// A `Protocol` error with the given message.
    pub open spec fn is_protocol(self, msg: Seq<char>) -> bool {
        self is Protocol && self->Protocol_0@ == msg
    }

    /// An `Encryption` error with the given message.
    pub open spec fn is_encryption(self, msg: Seq<char>) -> bool {
        self is Encryption && self->Encryption_0@ == msg
    }

    /// A `Config` error with the given message.
    pub open spec fn is_config(self, msg: Seq<char>) -> bool {
        self is Config && self->Config_0@ == msg
    }

    pub fn config(msg: &str) -> (e: VpnError)
        ensures
            e.is_config(msg@),
    {
        VpnError::Config(msg.to_owned())
    }

    pub fn protocol(msg: &str) -> (e: VpnError)
        ensures
            e.is_protocol(msg@),
    {
        VpnError::Protocol(msg.to_owned())
    }

    pub fn encryption(msg: &str) -> (e: VpnError)
        ensures
            e.is_encryption(msg@),
    {
        VpnError::Encryption(msg.to_owned())
    }

    /// Whether the server drops a session on this error: a missing session,
    /// a malformed frame or one that does not decrypt.
    pub open spec fn spec_is_fatal(self) -> bool {
        self is ClientNotFound || self is Protocol || self is Encryption
    }

    pub fn is_fatal(&self) -> (r: bool)
        ensures
            r == self.spec_is_fatal(),
    {
        match self {
            VpnError::ClientNotFound => true,
            VpnError::Protocol(_) => true,
            VpnError::Encryption(_) => true,
            _ => false,
        }
    }
}

impl From<std::io::Error> for VpnError {
    fn from(error: std::io::Error) -> (r: VpnError)
        ensures
            r == VpnError::Io(error),
    {
        VpnError::Io(error)
    }
}

impl vstd::std_specs::convert::FromSpecImpl<std::io::Error> for VpnError {
    open spec fn obeys_from_spec() -> bool {
        true
    }

    open spec fn from_spec(error: std::io::Error) -> VpnError {
        VpnError::Io(error)
    }
}

} // verus!
