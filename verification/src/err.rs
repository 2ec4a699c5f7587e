//! What can go wrong between a datagram and an answer.

use vstd::prelude::*;
use vstd::string::StringExecFns;

verus! {

/// An error of the protocol or of its surroundings. Errors that arise
/// outside the library carry the text that describes them.
#[derive(Debug)]
pub enum AccessError {
    /// A datagram is too short to begin with a nonce.
    InvalidNonce,
    /// A datagram was not sealed by the expected peer for this receiver.
    InvalidCiphertext,
    /// A file could not be opened, read or written.
    FileError(String),
    /// Key data or state could not be written out or read back.
    SerializeError(String),
    /// The server's name has no IPv4 address.
    NoIpv4Addr,
    /// No server was named.
    NoRemoteSet,
    /// Sending or receiving failed.
    IoError(String),
    /// An address could not be read.
    InvalidAddr(String),
    /// A message could not be encoded or decoded.
    InvalidCbor(String),
}

impl AccessError {
    /// The text that describes the error.
    pub open spec fn spec_to_string(&self) -> Seq<char> {
        match self {
            AccessError::InvalidNonce => "Invalid nonce data, make sure data is 24 bytes"@,
            AccessError::InvalidCiphertext => "Ciphertext failed verification"@,
            AccessError::FileError(text) => text@,
            AccessError::SerializeError(text) => text@,
            AccessError::NoIpv4Addr => "No IPv4 address found"@,
            AccessError::NoRemoteSet => "address of accessd server not set"@,
            AccessError::IoError(text) => text@,
            AccessError::InvalidAddr(text) => text@,
            AccessError::InvalidCbor(text) => text@,
        }
    }

    /// The text that describes the error.
    pub fn to_string(&self) -> (text: String)
        ensures
            text@ == self.spec_to_string(),
    {
        match self {
            AccessError::InvalidNonce => String::from_str(
                "Invalid nonce data, make sure data is 24 bytes",
            ),
            AccessError::InvalidCiphertext => String::from_str("Ciphertext failed verification"),
            AccessError::FileError(text) => text.clone(),
            AccessError::SerializeError(text) => text.clone(),
            AccessError::NoIpv4Addr => String::from_str("No IPv4 address found"),
            AccessError::NoRemoteSet => String::from_str("address of accessd server not set"),
            AccessError::IoError(text) => text.clone(),
            AccessError::InvalidAddr(text) => text.clone(),
            AccessError::InvalidCbor(text) => text.clone(),
        }
    }
}

} // verus!
