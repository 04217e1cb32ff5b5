//! The kinds of failure the controller tells apart.

use vstd::prelude::*;
use vstd::string::*;

verus! {

/// Why an operation of the controller failed.
#[derive(Clone, Copy, Debug, PartialEq, Eq, Structural)]
pub enum LuciaError {
    /// The multicast-DNS query could not be issued.
    MulticastDnsFailure,
    /// The bridge could not be reached, or the exchange broke off.
    HttpFailure,
    /// A network address was malformed.
    AddrParseError,
    /// Reading or writing the stored configuration failed.
    IoError,
    /// Pairing went past its deadline.
    PollingTimeout,
    /// Bytes that are no JSON, or JSON of another shape than expected.
    JsonError,
    /// The stored configuration lacks the bridge address or the user name.
    MissingConfiguration,
    /// A brightness or colour temperature outside what the bridge encodes.
    ValueOutOfRange,
}

impl LuciaError {
    /// The message shown for the error.
    pub open spec fn spec_message(self) -> Seq<char> {
        match self {
            LuciaError::MulticastDnsFailure => "failure to resolve mdns query"@,
            LuciaError::HttpFailure => "http request failure"@,
            LuciaError::AddrParseError => "invalid address"@,
            LuciaError::IoError => "io error"@,
            LuciaError::PollingTimeout => "polling time exceeded"@,
            LuciaError::JsonError => "unable to load/store json data"@,
            LuciaError::MissingConfiguration => "missing bridge address or user name"@,
            LuciaError::ValueOutOfRange => "value out of range"@,
        }
    }

    /// The message shown for the error.
    pub fn message(&self) -> (text: String)
        ensures
            text@ == self.spec_message(),
    {
        let text = match self {
            LuciaError::MulticastDnsFailure => "failure to resolve mdns query",
            LuciaError::HttpFailure => "http request failure",
            LuciaError::AddrParseError => "invalid address",
            LuciaError::IoError => "io error",
            LuciaError::PollingTimeout => "polling time exceeded",
            LuciaError::JsonError => "unable to load/store json data",
            LuciaError::MissingConfiguration => "missing bridge address or user name",
            LuciaError::ValueOutOfRange => "value out of range",
        };
        text.to_owned()
    }
}

} // verus!
