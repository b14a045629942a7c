//! The JSON-service client: every operation is a POST of a small JSON
//! envelope to one service endpoint, and the session lives in the HTTP
//! client's cookie jar rather than in a value this logic holds.

use crate::interface::{Error, PcInfo};
use crate::json::{json_as_array, json_as_str, json_escape, json_get, json_is_null, json_is_object,
    json_parse, spec_json_as_array, spec_json_as_str, spec_json_escape, spec_json_get,
    spec_json_is_null, spec_json_is_object, spec_json_parse};
use crate::mac::{spec_format_mac, spec_parse_mac, MacAddress};
use crate::request::{user_agent, spec_user_agent, HttpClientConfig, HttpRequest, Method};
use vstd::prelude::*;
use vstd::string::*;

verus! {

/// Builds clients of the JSON-service interface.
pub struct ClientBuilder;

/// A logged-in JSON-service client. It carries no session value of its own:
/// the cookie jar of the HTTP client configured for it holds the session,
/// and the server rejects unauthenticated calls through its error envelope.
#[derive(Debug)]
pub struct Client {}

/// One machine as the service reports it, before its address text is
/// parsed.
#[derive(Debug)]
pub struct WireEntry {
    pub mac: String,
    pub pcname: String,
}

impl DeepView for WireEntry {
    type V = (Seq<char>, Seq<char>);

    open spec fn deep_view(&self) -> (Seq<char>, Seq<char>) {
        (self.mac@, self.pcname@)
    }
}

/// The shape of one service response, read from its JSON envelope.
#[derive(Debug)]
pub enum Envelope {
    /// The body is not a JSON object at all.
    NotJson,
    /// The envelope carries a non-null `error` member.
    ErrorPresent,
    /// No error, but no `result` member either.
    NoResult,
    /// A `result` member that is not an array of `{mac, pcname}` objects.
    BadShape,
    /// The entries of a well-formed `result` array.
    Entries(Vec<WireEntry>),
}

/// The JSON object of a response body, where the body is one.
pub open spec fn spec_doc(s: Seq<char>) -> Option<serde_json::Value> {
    match spec_json_parse(s) {
        Some(d) => if spec_json_is_object(d) {
            Some(d)
        } else {
            None
        },
        None => None,
    }
}

/// Whether an envelope carries a non-null `error` member.
pub open spec fn spec_has_error(d: serde_json::Value) -> bool {
    match spec_json_get(d, "error"@) {
        Some(e) => !spec_json_is_null(e),
        None => false,
    }
}

/// The `mac` and `pcname` texts of one listed machine object; nothing where
/// either member is absent or not a string.
pub open spec fn spec_wire_entry(v: serde_json::Value) -> Option<(Seq<char>, Seq<char>)> {
    match (spec_json_get(v, "mac"@), spec_json_get(v, "pcname"@)) {
        (Some(m), Some(n)) => match (spec_json_as_str(m), spec_json_as_str(n)) {
            (Some(ms), Some(ns)) => Some((ms, ns)),
            _ => None,
        },
        _ => None,
    }
}

/// All machine objects read in order; one malformed object spoils the list.
pub open spec fn spec_wire_entries(items: Seq<serde_json::Value>) -> Option<
    Seq<(Seq<char>, Seq<char>)>,
>
    decreases items.len(),
{
    if items.len() == 0 {
        Some(Seq::empty())
    } else {
        match spec_wire_entry(items[0]) {
            Some(e) => match spec_wire_entries(items.subrange(1, items.len() as int)) {
                Some(rest) => Some(seq![e] + rest),
                None => None,
            },
            None => None,
        }
    }
}

/// The entries of a `result` member: an array of machine objects.
pub open spec fn spec_result_entries(res: serde_json::Value) -> Option<Seq<(Seq<char>, Seq<char>)>> {
    match spec_json_as_array(res) {
        Some(items) => spec_wire_entries(items),
        None => None,
    }
}

/// Reads the `mac` and `pcname` members of one machine object.
fn wire_entry(item: &serde_json::Value) -> (r: Option<WireEntry>)
    ensures
        match r {
            Some(w) => spec_wire_entry(*item) == Some(w.deep_view()),
            None => spec_wire_entry(*item) is None,
        },
{
    let m = match json_get(item, "mac") {
        Some(v) => v,
        None => {
            return None;
        },
    };
    let ms = match json_as_str(m) {
        Some(s) => s,
        None => {
            return None;
        },
    };
    let n = match json_get(item, "pcname") {
        Some(v) => v,
        None => {
            return None;
        },
    };
    let ns = match json_as_str(n) {
        Some(s) => s,
        None => {
            return None;
        },
    };
    Some(WireEntry { mac: ms.to_owned(), pcname: ns.to_owned() })
}

/// Reads the envelope of a service response body. A non-null `error` member
/// wins over everything else in the envelope; only a well-formed `result`
/// array yields entries.
pub fn extract_envelope(body: &str) -> (r: Envelope)
    ensures
        match r {
            Envelope::NotJson => spec_doc(body@) is None,
            Envelope::ErrorPresent => spec_doc(body@) matches Some(d) && spec_has_error(d),
            Envelope::NoResult => {
                &&& spec_doc(body@) matches Some(d)
                &&& !spec_has_error(d)
                &&& spec_json_get(d, "result"@) is None
            },
            Envelope::BadShape => {
                &&& spec_doc(body@) matches Some(d)
                &&& !spec_has_error(d)
                &&& spec_json_get(d, "result"@) matches Some(res)
                &&& spec_result_entries(res) is None
            },
            Envelope::Entries(es) => {
                &&& spec_doc(body@) matches Some(d)
                &&& !spec_has_error(d)
                &&& spec_json_get(d, "result"@) matches Some(res)
                &&& spec_result_entries(res) == Some(es.deep_view())
            },
        },
{
    let doc = match json_parse(body) {
        Some(v) => v,
        None => {
            return Envelope::NotJson;
        },
    };
    if !json_is_object(&doc) {
        return Envelope::NotJson;
    }
    if let Some(err) = json_get(&doc, "error") {
        if !json_is_null(err) {
            return Envelope::ErrorPresent;
        }
    }
    let result = match json_get(&doc, "result") {
        Some(r) => r,
        None => {
            return Envelope::NoResult;
        },
    };
    let items = match json_as_array(result) {
        Some(a) => a,
        None => {
            return Envelope::BadShape;
        },
    };
    let ghost vs = items@;
    let mut entries: Vec<WireEntry> = Vec::new();
    let mut i: usize = 0;
    proof {
        assert(vs.subrange(0, vs.len() as int) =~= vs);
        assert(entries.deep_view() =~= Seq::<(Seq<char>, Seq<char>)>::empty());
    }
    while i < items.len()
        invariant
            i <= items.len(),
            items@ == vs,
            spec_json_parse(body@) == Some(doc),
            spec_json_is_object(doc),
            !spec_has_error(doc),
            spec_json_get(doc, "result"@) == Some(*result),
            spec_json_as_array(*result) == Some(vs),
            spec_wire_entries(vs) == (match spec_wire_entries(
                vs.subrange(i as int, vs.len() as int),
            ) {
                Some(rest) => Some(entries.deep_view() + rest),
                None => None::<Seq<(Seq<char>, Seq<char>)>>,
            }),
        decreases items.len() - i,
    {
        let ghost restvs = vs.subrange(i as int, vs.len() as int);
        let item = &items[i];
        proof {
            assert(restvs[0] == vs[i as int]);
        }
        match wire_entry(item) {
            Some(w) => {
                let ghost e0 = entries.deep_view();
                let ghost wv = w.deep_view();
                entries.push(w);
                proof {
                    assert(entries.deep_view() =~= e0.push(wv));
                    let tail = vs.subrange(i + 1, vs.len() as int);
                    assert(restvs.subrange(1, restvs.len() as int) =~= tail);
                    if spec_wire_entries(tail) is Some {
                        let r2 = spec_wire_entries(tail)->0;
                        assert(e0.push(wv) + r2 =~= e0 + (seq![wv] + r2));
                    }
                }
            },
            None => {
                proof {
                    assert(spec_wire_entries(restvs) is None);
                }
                return Envelope::BadShape;
            },
        }
        i = i + 1;
    }
    proof {
        assert(vs.subrange(vs.len() as int, vs.len() as int) =~= Seq::<serde_json::Value>::empty());
        assert(entries.deep_view() + Seq::<(Seq<char>, Seq<char>)>::empty() =~= entries.deep_view());
    }
    Envelope::Entries(entries)
}

/// What an operation that only needs acknowledgement makes of an envelope:
/// a body that is no JSON object or carries an error is a server failure,
/// everything else is success.
pub open spec fn spec_ack(e: Envelope) -> Result<(), Error> {
    match e {
        Envelope::NotJson => Err(Error::Server),
        Envelope::ErrorPresent => Err(Error::Server),
        _ => Ok(()),
    }
}

/// Interprets the envelope of a login, wake-up or logout response.
pub fn ack_response(e: &Envelope) -> (r: Result<(), Error>)
    ensures
        r == spec_ack(*e),
{
    match e {
        Envelope::NotJson => Err(Error::Server),
        Envelope::ErrorPresent => Err(Error::Server),
        _ => Ok(()),
    }
}

/// The parse of the listed entries: each address text read as a hardware
/// address, names kept; one bad address spoils the whole list.
pub open spec fn spec_entries(es: Seq<(Seq<char>, Seq<char>)>) -> Option<Seq<(Seq<u8>, Seq<char>)>>
    decreases es.len(),
{
    if es.len() == 0 {
        Some(Seq::empty())
    } else {
        match spec_parse_mac(es[0].0) {
            Some(m) => match spec_entries(es.subrange(1, es.len() as int)) {
                Some(rest) => Some(seq![(m, es[0].1)] + rest),
                None => None,
            },
            None => None,
        }
    }
}

/// Interprets the envelope of a list response: an error or a missing or
/// malformed `result` is a server failure; an unparseable address among the
/// entries is a parsing failure; otherwise the machines come back in the
/// order the service listed them.
pub fn list_response(e: &Envelope) -> (r: Result<Vec<PcInfo>, Error>)
    ensures
        match e {
            Envelope::Entries(es) => match spec_entries(es.deep_view()) {
                Some(v) => r matches Ok(out) && out.deep_view() == v,
                None => r == Err::<Vec<PcInfo>, Error>(Error::Parsing),
            },
            _ => r == Err::<Vec<PcInfo>, Error>(Error::Server),
        },
{
    let es = match e {
        Envelope::Entries(es) => es,
        Envelope::NotJson => {
            return Err(Error::Server);
        },
        Envelope::ErrorPresent => {
            return Err(Error::Server);
        },
        Envelope::NoResult => {
            return Err(Error::Server);
        },
        Envelope::BadShape => {
            return Err(Error::Server);
        },
    };
    let ghost ws = es.deep_view();
    let mut out: Vec<PcInfo> = Vec::new();
    let mut idx: usize = 0;
    proof {
        assert(ws.subrange(0, ws.len() as int) =~= ws);
        assert(out.deep_view() =~= Seq::<(Seq<u8>, Seq<char>)>::empty());
    }
    while idx < es.len()
        invariant
            idx <= es.len(),
            es.deep_view() == ws,
            e matches Envelope::Entries(inner) && inner.deep_view() == ws,
            spec_entries(ws) == (match spec_entries(ws.subrange(idx as int, ws.len() as int)) {
                Some(rest) => Some(out.deep_view() + rest),
                None => None::<Seq<(Seq<u8>, Seq<char>)>>,
            }),
        decreases es.len() - idx,
    {
        let ghost restws = ws.subrange(idx as int, ws.len() as int);
        let entry = &es[idx];
        proof {
            assert(ws[idx as int] == (entry.mac@, entry.pcname@));
            assert(restws[0] == ws[idx as int]);
        }
        let m = match MacAddress::parse(entry.mac.as_str()) {
            Some(m) => m,
            None => {
                proof {
                    assert(spec_entries(restws) is None);
                }
                return Err(Error::Parsing);
            },
        };
        let ghost out0 = out.deep_view();
        out.push(PcInfo { name: entry.pcname.clone(), mac_address: m });
        proof {
            assert(out.deep_view() =~= out0.push((m@, entry.pcname@)));
            let tail = ws.subrange(idx + 1, ws.len() as int);
            assert(restws.subrange(1, restws.len() as int) =~= tail);
            if spec_entries(tail) is Some {
                let r2 = spec_entries(tail)->0;
                assert(out0.push((m@, entry.pcname@)) + r2 =~= out0 + (seq![(m@, entry.pcname@)]
                    + r2));
            }
        }
        idx = idx + 1;
    }
    proof {
        assert(ws.subrange(ws.len() as int, ws.len() as int) =~= Seq::<(Seq<char>, Seq<char>)>::empty());
        assert(out.deep_view() + Seq::<(Seq<u8>, Seq<char>)>::empty() =~= out.deep_view());
    }
    Ok(out)
}

/// What an acknowledgement-style operation makes of a whole response body:
/// a server failure where the body is no JSON object or its envelope
/// carries a non-null error, success otherwise.
pub open spec fn spec_body_ack(s: Seq<char>) -> Result<(), Error> {
    match spec_doc(s) {
        None => Err(Error::Server),
        Some(d) => if spec_has_error(d) {
            Err(Error::Server)
        } else {
            Ok(())
        },
    }
}

/// What the list operation makes of a whole response body: the envelope's
/// entries with every address parsed, a parsing failure on a bad address,
/// and a server failure on an error envelope or a missing or malformed
/// `result`.
pub open spec fn spec_body_list(s: Seq<char>) -> Result<Seq<(Seq<u8>, Seq<char>)>, Error> {
    match spec_doc(s) {
        None => Err(Error::Server),
        Some(d) => if spec_has_error(d) {
            Err(Error::Server)
        } else {
            match spec_json_get(d, "result"@) {
                None => Err(Error::Server),
                Some(res) => match spec_result_entries(res) {
                    None => Err(Error::Server),
                    Some(ws) => match spec_entries(ws) {
                        Some(v) => Ok(v),
                        None => Err(Error::Parsing),
                    },
                },
            }
        },
    }
}

/// A response whose envelope carries a non-null `error` member is rejected
/// as a server failure by every operation, whatever its `result` member
/// holds.
pub proof fn lemma_error_envelope_rejected(s: Seq<char>)
    requires
        spec_doc(s) matches Some(d) && spec_has_error(d),
    ensures
        spec_body_ack(s) == Err::<(), Error>(Error::Server),
        spec_body_list(s) == Err::<Seq<(Seq<u8>, Seq<char>)>, Error>(Error::Server),
{
}

/// Interprets a whole login, wake-up or logout response body.
pub fn ack_response_body(body: &str) -> (r: Result<(), Error>)
    ensures
        r == spec_body_ack(body@),
{
    let envelope = extract_envelope(body);
    ack_response(&envelope)
}

/// Interprets a whole list response body.
pub fn list_response_body(body: &str) -> (r: Result<Vec<PcInfo>, Error>)
    ensures
        match spec_body_list(body@) {
            Ok(v) => r matches Ok(out) && out.deep_view() == v,
            Err(e) => r == Err::<Vec<PcInfo>, Error>(e),
        },
{
    let envelope = extract_envelope(body);
    list_response(&envelope)
}

/// The fixed service endpoint, joined onto the management base URL.
pub open spec fn spec_service_path() -> Seq<char> {
    "cgi/service.cgi"@
}

/// The login envelope with both credentials escaped.
pub open spec fn spec_login_body(id: Seq<char>, pw: Seq<char>) -> Seq<char> {
    "{\"method\":\"session/login\",\"params\":{\"id\":\""@ + spec_json_escape(id)
        + "\",\"pw\":\""@ + spec_json_escape(pw) + "\"}}"@
}

/// The list envelope.
pub open spec fn spec_list_body() -> Seq<char> {
    "{\"method\":\"wol/show\"}"@
}

/// The wake-up envelope naming the target in canonical form.
pub open spec fn spec_signal_body(mac: Seq<u8>) -> Seq<char> {
    "{\"method\":\"wol/signal\",\"params\":[\""@ + spec_format_mac(mac) + "\"]}"@
}

/// The logout envelope.
pub open spec fn spec_logout_body() -> Seq<char> {
    "{\"method\":\"session/logout\"}"@
}

/// A POST of one JSON envelope to the service endpoint.
pub open spec fn is_service_request(r: HttpRequest, body: Seq<char>) -> bool {
    &&& r.method == Method::Post
    &&& r.path_and_query@ == spec_service_path()
    &&& r.headers@.len() == 1
    &&& r.headers@[0].0@ == "Content-Type"@
    &&& r.headers@[0].1@ == "application/json"@
    &&& match r.body {
        Some(b) => b@ == body,
        None => false,
    }
}

/// The one content-type header of a service request.
fn json_headers() -> (r: Vec<(String, String)>)
    ensures
        r@.len() == 1,
        r@[0].0@ == "Content-Type"@,
        r@[0].1@ == "application/json"@,
{
    let mut headers: Vec<(String, String)> = Vec::new();
    headers.push(("Content-Type".to_owned(), "application/json".to_owned()));
    headers
}

/// A service request around the given body.
fn service_request(body: String) -> (r: HttpRequest)
    ensures
        is_service_request(r, body@),
{
    HttpRequest {
        method: Method::Post,
        path_and_query: "cgi/service.cgi".to_owned(),
        headers: json_headers(),
        body: Some(body),
    }
}

/// How the HTTP client of a JSON-service login is configured: a cookie jar
/// for the session, the wake-up page as `Referer`, the base URL as `Origin`,
/// and the fixed browser signature.
pub fn client_config(base_url: &str) -> (r: HttpClientConfig)
    ensures
        r.cookie_store == true,
        r.user_agent@ == spec_user_agent(),
        r.default_headers@.len() == 2,
        r.default_headers@[0].0@ == "Referer"@,
        r.default_headers@[0].1@ == base_url@ + "ui/wol"@,
        r.default_headers@[1].0@ == "Origin"@,
        r.default_headers@[1].1@ == base_url@,
{
    let mut referer = base_url.to_owned();
    referer.append("ui/wol");
    let mut headers: Vec<(String, String)> = Vec::new();
    headers.push(("Referer".to_owned(), referer));
    headers.push(("Origin".to_owned(), base_url.to_owned()));
    HttpClientConfig { cookie_store: true, default_headers: headers, user_agent: user_agent() }
}

impl ClientBuilder {
    /// The request that starts a login with the given credentials.
    pub fn login_request(id: &str, password: &str) -> (r: HttpRequest)
        ensures
            is_service_request(r, spec_login_body(id@, password@)),
    {
        let mut b = "{\"method\":\"session/login\",\"params\":{\"id\":\"".to_owned();
        let ei = json_escape(id);
        b.append(ei.as_str());
        b.append("\",\"pw\":\"");
        let ep = json_escape(password);
        b.append(ep.as_str());
        b.append("\"}}");
        proof {
            assert(b@ =~= spec_login_body(id@, password@));
        }
        service_request(b)
    }

    /// Interprets the login response: success exactly where the envelope
    /// acknowledges the call, and then the cookie jar of the configured
    /// client holds the session.
    pub fn login_response(e: &Envelope) -> (r: Result<Client, Error>)
        ensures
            spec_ack(*e) == Ok::<(), Error>(()) ==> r matches Ok(_),
            spec_ack(*e) matches Err(er) ==> r == Err::<Client, Error>(er),
    {
        match ack_response(e) {
            Ok(_) => Ok(Client {  }),
            Err(er) => Err(er),
        }
    }
}

impl Client {
    /// The request of the list operation.
    pub fn list_request(&self) -> (r: HttpRequest)
        ensures
            is_service_request(r, spec_list_body()),
    {
        service_request("{\"method\":\"wol/show\"}".to_owned())
    }

    /// The request that asks the router to wake the target.
    pub fn signal_request(&self, target: &MacAddress) -> (r: HttpRequest)
        ensures
            is_service_request(r, spec_signal_body(target@)),
    {
        let mut b = "{\"method\":\"wol/signal\",\"params\":[\"".to_owned();
        let mac_text = target.canonical_string();
        b.append(mac_text.as_str());
        b.append("\"]}");
        proof {
            assert(b@ =~= spec_signal_body(target@));
        }
        service_request(b)
    }

    /// The request of the logout call.
    pub fn logout_request(&self) -> (r: HttpRequest)
        ensures
            is_service_request(r, spec_logout_body()),
    {
        service_request("{\"method\":\"session/logout\"}".to_owned())
    }
}

} // verus!
