//! Classification of the router's interface generation from the single
//! unauthenticated probe of `<base>/ui`.

use vstd::prelude::*;

verus! {

/// The two incompatible generations of the management interface.
#[derive(Clone, Copy, Debug, PartialEq, Eq, Structural)]
pub enum Version {
    OldUi,
    NewUi,
}

/// The classification the probe's outcome dictates: any success status means
/// the new interface, any other status the old one, no response at all
/// leaves the version undetermined.
pub open spec fn spec_classify(status: Option<u16>) -> Option<Version> {
    match status {
        Some(code) => Some(
            if 200 <= code < 300 {
                Version::NewUi
            } else {
                Version::OldUi
            },
        ),
        None => None,
    }
}

/// Classifies the status of the probe of `<base>/ui`; `None` stands for a
/// probe that got no response at all. This is a heuristic, not a handshake:
/// any reachable success status is taken as the new interface.
pub fn classify_status(status: Option<u16>) -> (r: Option<Version>)
    ensures
        r == spec_classify(status),
{
    match status {
        Some(code) => {
            if 200 <= code && code < 300 {
                Some(Version::NewUi)
            } else {
                Some(Version::OldUi)
            }
        },
        None => None,
    }
}

} // verus!
