//! The facade over the two protocol variants. Detection picks the variant
//! once at login; the facade then routes every operation to that variant, so
//! callers never see which protocol is active.

use crate::interface;
use crate::mac::MacAddress;
use crate::request::HttpRequest;
use crate::text::spec_contains;
use vstd::prelude::*;

pub mod new_ui;
pub mod old_ui;
pub mod version_detector;

use version_detector::Version;

verus! {

/// The client selected at login: a tagged union over the two variants.
#[derive(Debug)]
pub enum Client {
    OldUi(old_ui::Client),
    NewUi(new_ui::Client),
}

/// What a login can report beyond the shared operation errors: the version
/// probe may leave the router unclassified.
#[derive(Clone, Copy, Debug, PartialEq, Eq, Structural)]
pub enum Error {
    InvalidVersion,
    WolError(interface::Error),
}

impl From<old_ui::Client> for Client {
    fn from(client: old_ui::Client) -> (r: Self) {
        Client::OldUi(client)
    }
}

impl vstd::std_specs::convert::FromSpecImpl<old_ui::Client> for Client {
    open spec fn obeys_from_spec() -> bool {
        true
    }

    open spec fn from_spec(client: old_ui::Client) -> Self {
        Client::OldUi(client)
    }
}

impl From<new_ui::Client> for Client {
    fn from(client: new_ui::Client) -> (r: Self) {
        Client::NewUi(client)
    }
}

impl vstd::std_specs::convert::FromSpecImpl<new_ui::Client> for Client {
    open spec fn obeys_from_spec() -> bool {
        true
    }

    open spec fn from_spec(client: new_ui::Client) -> Self {
        Client::NewUi(client)
    }
}

/// Turns the probe classification into the variant to log in against: an
/// undetermined probe fails the login at once, with neither protocol tried
/// blindly.
pub fn login_version(detected: Option<Version>) -> (r: Result<Version, Error>)
    ensures
        match detected {
            Some(v) => r == Ok::<Version, Error>(v),
            None => r == Err::<Version, Error>(Error::InvalidVersion),
        },
{
    match detected {
        Some(v) => Ok(v),
        None => Err(Error::InvalidVersion),
    }
}

/// Completes a login against the detected variant. The old interface judges
/// by status and hands the session id back as the body; the new one judges
/// by its JSON envelope, the session staying in the configured client's
/// cookie jar.
pub fn login_response(version: Version, status: u16, body: &str) -> (r: Result<Client, Error>)
    ensures
        version == Version::OldUi && status == 200 ==> (r matches Ok(c) && c matches Client::OldUi(
            oc,
        ) && oc.emf_session_id matches Some(s) && s@ == body@),
        version == Version::OldUi && status == 502 ==> r == Err::<Client, Error>(
            Error::WolError(interface::Error::Auth),
        ),
        version == Version::OldUi && status != 200 && status != 502 ==> r == Err::<Client, Error>(
            Error::WolError(interface::Error::Server),
        ),
        version == Version::NewUi ==> (match new_ui::spec_body_ack(body@) {
            Ok(_) => r matches Ok(c) && c is NewUi,
            Err(er) => r == Err::<Client, Error>(Error::WolError(er)),
        }),
{
    match version {
        Version::OldUi => match old_ui::ClientBuilder::login_response(status, body) {
            Ok(c) => Ok(Client::from(c)),
            Err(e) => Err(Error::WolError(e)),
        },
        Version::NewUi => {
            let envelope = new_ui::extract_envelope(body);
            proof {
                assert(new_ui::spec_ack(envelope) == new_ui::spec_body_ack(body@));
            }
            match new_ui::ClientBuilder::login_response(&envelope) {
                Ok(c) => Ok(Client::from(c)),
                Err(e) => Err(Error::WolError(e)),
            }
        },
    }
}

impl Client {
    /// The request of the list operation, routed to the variant selected at
    /// login.
    pub fn list_request(&self) -> (r: Result<HttpRequest, interface::Error>)
        ensures
            match self {
                Client::OldUi(c) => match c.emf_session_id {
                    Some(s) => r matches Ok(req) && old_ui::is_list_request(req, s@),
                    None => r == Err::<HttpRequest, interface::Error>(interface::Error::Auth),
                },
                Client::NewUi(_) => r matches Ok(req) && new_ui::is_service_request(
                    req,
                    new_ui::spec_list_body(),
                ),
            },
    {
        match self {
            Client::OldUi(c) => c.list_request(),
            Client::NewUi(c) => Ok(c.list_request()),
        }
    }

    /// The request that asks the router to wake the target, routed to the
    /// variant selected at login. Every call builds the request anew: two
    /// calls with one target are two independent requests.
    pub fn signal_request(&self, target: &MacAddress) -> (r: Result<HttpRequest, interface::Error>)
        ensures
            match self {
                Client::OldUi(c) => match c.emf_session_id {
                    Some(s) => r matches Ok(req) && old_ui::is_signal_request(req, s@, target@),
                    None => r == Err::<HttpRequest, interface::Error>(interface::Error::Auth),
                },
                Client::NewUi(_) => r matches Ok(req) && new_ui::is_service_request(
                    req,
                    new_ui::spec_signal_body(target@),
                ),
            },
    {
        match self {
            Client::OldUi(c) => c.signal_request(target),
            Client::NewUi(c) => Ok(c.signal_request(target)),
        }
    }

    /// The request of the logout call, routed to the variant selected at
    /// login.
    pub fn logout_request(&self) -> (r: Result<HttpRequest, interface::Error>)
        ensures
            match self {
                Client::OldUi(c) => match c.emf_session_id {
                    Some(s) => r matches Ok(req) && old_ui::is_logout_request(req, s@),
                    None => r == Err::<HttpRequest, interface::Error>(interface::Error::Auth),
                },
                Client::NewUi(_) => r matches Ok(req) && new_ui::is_service_request(
                    req,
                    new_ui::spec_logout_body(),
                ),
            },
    {
        match self {
            Client::OldUi(c) => c.logout_request(),
            Client::NewUi(c) => Ok(c.logout_request()),
        }
    }

    /// Interprets a list response body by the selected variant. For the old
    /// interface the body is the plain-text list, read exactly; for the new
    /// one it is a JSON envelope, read through the JSON parser.
    pub fn list_response(&self, body: &str) -> (r: Result<
        Vec<interface::PcInfo>,
        interface::Error,
    >)
        ensures
            self is OldUi ==> (match old_ui::spec_parse_list(body@) {
                Some(v) => r matches Ok(out) && out.deep_view() == v,
                None => r == Err::<Vec<interface::PcInfo>, interface::Error>(
                    interface::Error::Parsing,
                ),
            }),
            self is NewUi ==> (match new_ui::spec_body_list(body@) {
                Ok(v) => r matches Ok(out) && out.deep_view() == v,
                Err(e) => r == Err::<Vec<interface::PcInfo>, interface::Error>(e),
            }),
    {
        match self {
            Client::OldUi(_) => old_ui::parse_wol_list(body),
            Client::NewUi(_) => new_ui::list_response_body(body),
        }
    }

    /// Interprets a wake-up response body by the selected variant: the old
    /// interface signals failure only through the marker text in the body,
    /// the new one through its JSON envelope.
    pub fn signal_response(&self, body: &str) -> (r: Result<(), interface::Error>)
        ensures
            self is OldUi && spec_contains(body@, "fail"@) ==> r == Err::<(), interface::Error>(
                interface::Error::Server,
            ),
            self is OldUi && !spec_contains(body@, "fail"@) ==> r == Ok::<(), interface::Error>(()),
            self is NewUi ==> r == new_ui::spec_body_ack(body@),
    {
        match self {
            Client::OldUi(_) => old_ui::signal_response(body),
            Client::NewUi(_) => new_ui::ack_response_body(body),
        }
    }

    /// Interprets a logout response body by the selected variant: the old
    /// interface ignores it entirely, the new one reads its JSON envelope.
    pub fn logout_response(&self, body: &str) -> (r: Result<(), interface::Error>)
        ensures
            self is OldUi ==> r == Ok::<(), interface::Error>(()),
            self is NewUi ==> r == new_ui::spec_body_ack(body@),
    {
        match self {
            Client::OldUi(_) => old_ui::logout_response(body),
            Client::NewUi(_) => new_ui::ack_response_body(body),
        }
    }
}

} // verus!
