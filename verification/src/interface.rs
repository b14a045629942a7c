//! Shared data model of the client operations: the error taxonomy and the
//! entries returned by the list operation.

use crate::mac::MacAddress;
use vstd::prelude::*;

verus! {

/// One registered machine as the router reports it: a display name and a
/// hardware address.
#[derive(Debug)]
pub struct PcInfo {
    pub name: String,
    pub mac_address: MacAddress,
}

impl View for PcInfo {
    type V = (Seq<u8>, Seq<char>);

    open spec fn view(&self) -> (Seq<u8>, Seq<char>) {
        (self.mac_address@, self.name@)
    }
}

impl DeepView for PcInfo {
    type V = (Seq<u8>, Seq<char>);

    open spec fn deep_view(&self) -> (Seq<u8>, Seq<char>) {
        self@
    }
}

/// What went wrong during one client operation. Every fallible function of
/// this library reports one of these; the transport shell around the library
/// maps network-level failures to `Transport` itself.
#[derive(Clone, Copy, Debug, PartialEq, Eq, Structural)]
pub enum Error {
    /// The HTTP client or its headers could not be constructed.
    Init,
    /// A list line or a hardware address could not be parsed.
    Parsing,
    /// The router rejected the credentials, or no session is held.
    Auth,
    /// The router reported an error envelope or an unexpected response.
    Server,
    /// A network or connection-level failure.
    Transport,
}

} // verus!
