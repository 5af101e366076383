//! What can go wrong.
use vstd::prelude::*;

verus! {

/// `std::io::Error`, which is only carried through.
#[verifier::external_type_specification]
#[verifier::external_body]
pub struct ExIoError(std::io::Error);

/// A failure of the connection to a broker.
#[derive(Debug, PartialEq, Eq)]
pub enum ConnectionError {
    Disconnected,
    Unexpected(String),
}

/// A failure of one consumer.
#[derive(Debug)]
pub enum ConsumerError {
    Connection(ConnectionError),
    MissingPayload(String),
    Io(std::io::Error),
}

/// A failure of a broker lookup.
#[derive(Debug, PartialEq, Eq)]
pub enum ServiceDiscoveryError {
    Connection(ConnectionError),
    Query(String),
    NotFound,
}

/// A failure of the client.
#[derive(Debug)]
pub enum Error {
    Connection(ConnectionError),
    Consumer(ConsumerError),
}

impl From<ConnectionError> for Error {
    fn from(error: ConnectionError) -> (r: Error) {
        Error::Connection(error)
    }
}

impl vstd::std_specs::convert::FromSpecImpl<ConnectionError> for Error {
    open spec fn obeys_from_spec() -> bool {
        true
    }

    open spec fn from_spec(error: ConnectionError) -> Error {
        Error::Connection(error)
    }
}

impl From<ConsumerError> for Error {
    fn from(error: ConsumerError) -> (r: Error) {
        Error::Consumer(error)
    }
}

impl vstd::std_specs::convert::FromSpecImpl<ConsumerError> for Error {
    open spec fn obeys_from_spec() -> bool {
        true
    }

    open spec fn from_spec(error: ConsumerError) -> Error {
        Error::Consumer(error)
    }
}

impl From<ConnectionError> for ServiceDiscoveryError {
    fn from(error: ConnectionError) -> (r: ServiceDiscoveryError) {
        ServiceDiscoveryError::Connection(error)
    }
}

impl vstd::std_specs::convert::FromSpecImpl<ConnectionError> for ServiceDiscoveryError {
    open spec fn obeys_from_spec() -> bool {
        true
    }

    open spec fn from_spec(error: ConnectionError) -> ServiceDiscoveryError {
        ServiceDiscoveryError::Connection(error)
    }
}

} // verus!
