//! The legacy CGI-based client: explicit session id handed around as a
//! cookie, form-encoded login, and a semicolon-delimited plain-text list
//! format.

use crate::encode::{all_ascii, form_urlencode, pairs_views, percent_encode, spec_form_encode,
    spec_percent_encode};
use crate::interface::{Error, PcInfo};
use crate::mac::{spec_format_mac, spec_parse_mac, MacAddress};
use crate::request::{user_agent, spec_user_agent, HttpClientConfig, HttpRequest, Method};
use crate::text::{find_char, lemma_find_bounds, spec_contains, spec_find, spec_lines, split_lines,
    str_contains};
use vstd::prelude::*;
use vstd::string::*;

verus! {

/// Builds clients of the legacy interface.
pub struct ClientBuilder;

/// A logged-in legacy client: every operation threads the session id into
/// the request as a cookie. Without a session id, operations are refused
/// with an authentication-state error.
#[derive(Debug)]
pub struct Client {
    pub emf_session_id: Option<String>,
}

/// The cookie value carrying the session id.
pub open spec fn spec_cookie_value(sid: Seq<char>) -> Seq<char> {
    "efm_session_id="@ + sid
}

/// The one cookie header of an authenticated legacy request.
pub open spec fn has_session_cookie(r: HttpRequest, sid: Seq<char>) -> bool {
    &&& r.headers@.len() == 1
    &&& r.headers@[0].0@ == "Cookie"@
    &&& r.headers@[0].1@ == spec_cookie_value(sid)
}

/// The login call: a form-encoded POST asking for a session id.
pub open spec fn is_login_request(r: HttpRequest, id: Seq<char>, pw: Seq<char>) -> bool {
    &&& r.method == Method::Post
    &&& r.path_and_query@ == "/sess-bin/login_handler.cgi"@
    &&& r.headers@.len() == 0
    &&& match r.body {
        Some(b) => b@ == spec_form_encode(
            seq![("username"@, id), ("passwd"@, pw), ("act"@, "session_id"@)],
        ),
        None => false,
    }
}

/// The list call: an authenticated GET of the registered machines.
pub open spec fn is_list_request(r: HttpRequest, sid: Seq<char>) -> bool {
    &&& r.method == Method::Get
    &&& r.path_and_query@ == "/sess-bin/info.cgi?act=wol_list"@
    &&& has_session_cookie(r, sid)
    &&& r.body is None
}

/// The wake-up call: an authenticated GET naming the target address,
/// percent-encoded, in the query.
pub open spec fn is_signal_request(r: HttpRequest, sid: Seq<char>, mac: Seq<u8>) -> bool {
    &&& r.method == Method::Get
    &&& r.path_and_query@ == "/sess-bin/wol_apply.cgi?act=wakeup&mac="@ + spec_percent_encode(
        spec_format_mac(mac),
    )
    &&& has_session_cookie(r, sid)
    &&& r.body is None
}

/// The logout call: an authenticated GET whose response is ignored.
pub open spec fn is_logout_request(r: HttpRequest, sid: Seq<char>) -> bool {
    &&& r.method == Method::Get
    &&& r.path_and_query@ == "/sess-bin/login_session.cgi?logout=1"@
    &&& has_session_cookie(r, sid)
    &&& r.body is None
}

/// Every character of a canonical address text is ASCII.
proof fn lemma_format_mac_ascii(m: Seq<u8>)
    requires
        m.len() == 6,
    ensures
        all_ascii(spec_format_mac(m)),
{
    let s = spec_format_mac(m);
    assert forall|i: int| #![trigger s[i]] 0 <= i < s.len() implies (s[i] as u32) < 128 by {
        assert(m[i / 3] / 16 < 16 && m[i / 3] % 16 < 16);
    }
}

/// The one-cookie header list of an authenticated request.
fn cookie_headers(session: &str) -> (r: Vec<(String, String)>)
    ensures
        r@.len() == 1,
        r@[0].0@ == "Cookie"@,
        r@[0].1@ == spec_cookie_value(session@),
{
    let mut value = "efm_session_id=".to_owned();
    value.append(session);
    let mut headers: Vec<(String, String)> = Vec::new();
    headers.push(("Cookie".to_owned(), value));
    headers
}

/// How the HTTP client of a legacy login is configured: the base URL as
/// `Referer` and the fixed browser signature, which the legacy firmware
/// demands; no cookie jar, since the session id is threaded by hand.
pub fn client_config(base_url: &str) -> (r: HttpClientConfig)
    ensures
        r.cookie_store == false,
        r.user_agent@ == spec_user_agent(),
        r.default_headers@.len() == 1,
        r.default_headers@[0].0@ == "Referer"@,
        r.default_headers@[0].1@ == base_url@,
{
    let mut headers: Vec<(String, String)> = Vec::new();
    headers.push(("Referer".to_owned(), base_url.to_owned()));
    HttpClientConfig { cookie_store: false, default_headers: headers, user_agent: user_agent() }
}

impl ClientBuilder {
    /// The request that starts a login with the given credentials.
    pub fn login_request(id: &str, password: &str) -> (r: HttpRequest)
        ensures
            is_login_request(r, id@, password@),
    {
        let mut pairs: Vec<(String, String)> = Vec::new();
        pairs.push(("username".to_owned(), id.to_owned()));
        pairs.push(("passwd".to_owned(), password.to_owned()));
        pairs.push(("act".to_owned(), "session_id".to_owned()));
        let body = form_urlencode(&pairs);
        proof {
            assert(pairs_views(pairs@) =~= seq![
                ("username"@, id@),
                ("passwd"@, password@),
                ("act"@, "session_id"@),
            ]);
        }
        HttpRequest {
            method: Method::Post,
            path_and_query: "/sess-bin/login_handler.cgi".to_owned(),
            headers: Vec::new(),
            body: Some(body),
        }
    }

    /// Interprets the login response: OK carries the session id as the body,
    /// BAD GATEWAY means rejected credentials, anything else is a server
    /// failure.
    pub fn login_response(status: u16, body: &str) -> (r: Result<Client, Error>)
        ensures
            status == 200 ==> (r matches Ok(c) && c.emf_session_id matches Some(s) && s@ == body@),
            status == 502 ==> r == Err::<Client, Error>(Error::Auth),
            status != 200 && status != 502 ==> r == Err::<Client, Error>(Error::Server),
    {
        if status == 200 {
            Ok(Client { emf_session_id: Some(body.to_owned()) })
        } else if status == 502 {
            Err(Error::Auth)
        } else {
            Err(Error::Server)
        }
    }
}

impl Client {
    /// The request of the list operation, or the authentication-state error
    /// where no session is held.
    pub fn list_request(&self) -> (r: Result<HttpRequest, Error>)
        ensures
            match self.emf_session_id {
                Some(s) => r matches Ok(req) && is_list_request(req, s@),
                None => r == Err::<HttpRequest, Error>(Error::Auth),
            },
    {
        match &self.emf_session_id {
            Some(sid) => Ok(
                HttpRequest {
                    method: Method::Get,
                    path_and_query: "/sess-bin/info.cgi?act=wol_list".to_owned(),
                    headers: cookie_headers(sid.as_str()),
                    body: None,
                },
            ),
            None => Err(Error::Auth),
        }
    }

    /// The request that asks the router to wake the target, or the
    /// authentication-state error where no session is held.
    pub fn signal_request(&self, target: &MacAddress) -> (r: Result<HttpRequest, Error>)
        ensures
            match self.emf_session_id {
                Some(s) => r matches Ok(req) && is_signal_request(req, s@, target@),
                None => r == Err::<HttpRequest, Error>(Error::Auth),
            },
    {
        match &self.emf_session_id {
            Some(sid) => {
                let mac_text = target.canonical_string();
                proof {
                    lemma_format_mac_ascii(target@);
                }
                let encoded = percent_encode(mac_text.as_str());
                let mut path = "/sess-bin/wol_apply.cgi?act=wakeup&mac=".to_owned();
                path.append(encoded.as_str());
                Ok(
                    HttpRequest {
                        method: Method::Get,
                        path_and_query: path,
                        headers: cookie_headers(sid.as_str()),
                        body: None,
                    },
                )
            },
            None => Err(Error::Auth),
        }
    }

    /// The request of the logout call, or the authentication-state error
    /// where no session is held.
    pub fn logout_request(&self) -> (r: Result<HttpRequest, Error>)
        ensures
            match self.emf_session_id {
                Some(s) => r matches Ok(req) && is_logout_request(req, s@),
                None => r == Err::<HttpRequest, Error>(Error::Auth),
            },
    {
        match &self.emf_session_id {
            Some(sid) => Ok(
                HttpRequest {
                    method: Method::Get,
                    path_and_query: "/sess-bin/login_session.cgi?logout=1".to_owned(),
                    headers: cookie_headers(sid.as_str()),
                    body: None,
                },
            ),
            None => Err(Error::Auth),
        }
    }
}

/// One list line split at its first semicolon: the address before it, the
/// name from just after it to the next semicolon or the end. A line without
/// a separator, with nothing at all after the first separator, or with an
/// unparseable address yields nothing.
pub open spec fn spec_parse_line(l: Seq<char>) -> Option<(Seq<u8>, Seq<char>)> {
    let i = spec_find(l, ';', 0);
    if 0 <= i && i + 1 < l.len() {
        match spec_parse_mac(l.subrange(0, i)) {
            Some(m) => Some((m, l.subrange(i + 1, spec_find(l, ';', i + 1)))),
            None => None,
        }
    } else {
        None
    }
}

/// All lines parsed in order; one bad line spoils the whole list.
pub open spec fn spec_parse_lines(ls: Seq<Seq<char>>) -> Option<Seq<(Seq<u8>, Seq<char>)>>
    decreases ls.len(),
{
    if ls.len() == 0 {
        Some(Seq::empty())
    } else {
        match spec_parse_line(ls[0]) {
            Some(e) => match spec_parse_lines(ls.subrange(1, ls.len() as int)) {
                Some(rest) => Some(seq![e] + rest),
                None => None,
            },
            None => None,
        }
    }
}

/// The parse of a whole list body: its lines, each as one entry.
pub open spec fn spec_parse_list(s: Seq<char>) -> Option<Seq<(Seq<u8>, Seq<char>)>> {
    spec_parse_lines(spec_lines(s))
}

/// Parses one `mac;name` line.
fn parse_line(line: &str) -> (r: Option<PcInfo>)
    ensures
        match r {
            Some(pc) => spec_parse_line(line@) == Some(pc@),
            None => spec_parse_line(line@) is None,
        },
{
    let n = line.unicode_len();
    let i = find_char(line, ';', 0);
    proof {
        lemma_find_bounds(line@, ';', 0);
    }
    if i >= n {
        return None;
    }
    if i + 1 >= n {
        return None;
    }
    let mac_text = line.substring_char(0, i);
    let m = match MacAddress::parse(mac_text) {
        Some(m) => m,
        None => {
            return None;
        },
    };
    let j = find_char(line, ';', i + 1);
    proof {
        lemma_find_bounds(line@, ';', i + 1);
    }
    let name = line.substring_char(i + 1, j).to_owned();
    Some(PcInfo { name, mac_address: m })
}

/// Parses the plain-text list body: one `mac;name` line per machine, in
/// order; an empty body is an empty list; any malformed line fails the whole
/// call with a parsing error.
pub fn parse_wol_list(body: &str) -> (r: Result<Vec<PcInfo>, Error>)
    ensures
        match r {
            Ok(v) => spec_parse_list(body@) == Some(v.deep_view()),
            Err(e) => spec_parse_list(body@) is None && e == Error::Parsing,
        },
{
    let lines = split_lines(body);
    let ghost ls = spec_lines(body@);
    let mut out: Vec<PcInfo> = Vec::new();
    let mut idx: usize = 0;
    proof {
        assert(ls.subrange(0, ls.len() as int) =~= ls);
        assert(out.deep_view() =~= Seq::<(Seq<u8>, Seq<char>)>::empty());
    }
    while idx < lines.len()
        invariant
            idx <= lines.len(),
            lines.deep_view() == ls,
            ls == spec_lines(body@),
            spec_parse_lines(ls) == (match spec_parse_lines(
                ls.subrange(idx as int, ls.len() as int),
            ) {
                Some(rest) => Some(out.deep_view() + rest),
                None => None::<Seq<(Seq<u8>, Seq<char>)>>,
            }),
        decreases lines.len() - idx,
    {
        let ghost restls = ls.subrange(idx as int, ls.len() as int);
        let line = &lines[idx];
        proof {
            assert(lines.deep_view()[idx as int] == ls[idx as int]);
            assert(restls[0] == ls[idx as int]);
        }
        match parse_line(line.as_str()) {
            Some(pc) => {
                let ghost out0 = out.deep_view();
                out.push(pc);
                proof {
                    assert(out.deep_view() =~= out0.push(pc@));
                    let tail = ls.subrange(idx + 1, ls.len() as int);
                    assert(restls.subrange(1, restls.len() as int) =~= tail);
                    if spec_parse_lines(tail) is Some {
                        let r2 = spec_parse_lines(tail)->0;
                        assert(out0.push(pc@) + r2 =~= out0 + (seq![pc@] + r2));
                    }
                }
            },
            None => {
                proof {
                    assert(spec_parse_lines(restls) is None);
                }
                return Err(Error::Parsing);
            },
        }
        idx = idx + 1;
    }
    proof {
        assert(ls.subrange(ls.len() as int, ls.len() as int) =~= Seq::<Seq<char>>::empty());
        assert(out.deep_view() + Seq::<(Seq<u8>, Seq<char>)>::empty() =~= out.deep_view());
    }
    Ok(out)
}

/// Interprets the wake-up response: the firmware reports failure only
/// through the marker text in the body, whatever the status code was.
pub fn signal_response(body: &str) -> (r: Result<(), Error>)
    ensures
        spec_contains(body@, "fail"@) ==> r == Err::<(), Error>(Error::Server),
        !spec_contains(body@, "fail"@) ==> r == Ok::<(), Error>(()),
{
    if str_contains(body, "fail") {
        Err(Error::Server)
    } else {
        Ok(())
    }
}

/// Interprets the logout response: the body and status are ignored, the
/// call reports success once it round-tripped.
pub fn logout_response(_body: &str) -> (r: Result<(), Error>)
    ensures
        r == Ok::<(), Error>(()),
{
    Ok(())
}

/// A list line the parser accepts.
pub open spec fn wf_line(l: Seq<char>) -> bool {
    spec_parse_line(l) is Some
}

proof fn lemma_parse_lines_complete(ls: Seq<Seq<char>>)
    requires
        forall|k: int| 0 <= k < ls.len() ==> wf_line(#[trigger] ls[k]),
    ensures
        spec_parse_lines(ls) matches Some(es) && es.len() == ls.len() && (forall|k: int|
            0 <= k < ls.len() ==> #[trigger] es[k] == spec_parse_line(ls[k])->0),
    decreases ls.len(),
{
    if ls.len() > 0 {
        let tail = ls.subrange(1, ls.len() as int);
        assert forall|k: int| 0 <= k < tail.len() implies wf_line(#[trigger] tail[k]) by {
            assert(tail[k] == ls[k + 1]);
        }
        lemma_parse_lines_complete(tail);
        let e0 = spec_parse_line(ls[0])->0;
        let es_tail = spec_parse_lines(tail)->0;
        let es = spec_parse_lines(ls)->0;
        assert(es == seq![e0] + es_tail);
        assert forall|k: int| 0 <= k < ls.len() implies #[trigger] es[k] == spec_parse_line(
            ls[k],
        )->0 by {
            if k > 0 {
                assert(es[k] == es_tail[k - 1]);
                assert(tail[k - 1] == ls[k]);
            }
        }
    }
}

/// A body whose every line is well formed parses to exactly one entry per
/// line, in line order, each carrying that line's address and name.
pub proof fn lemma_list_complete(body: Seq<char>)
    requires
        forall|k: int| 0 <= k < spec_lines(body).len() ==> wf_line(#[trigger] spec_lines(body)[k]),
    ensures
        spec_parse_list(body) matches Some(es) && es.len() == spec_lines(body).len() && (forall|
            k: int,
        |
            0 <= k < spec_lines(body).len() ==> #[trigger] es[k] == spec_parse_line(
                spec_lines(body)[k],
            )->0),
{
    lemma_parse_lines_complete(spec_lines(body));
}

proof fn lemma_parse_lines_fail(ls: Seq<Seq<char>>, k: int)
    requires
        0 <= k < ls.len(),
        !wf_line(ls[k]),
    ensures
        spec_parse_lines(ls) is None,
    decreases ls.len(),
{
    if spec_parse_line(ls[0]) is Some {
        let tail = ls.subrange(1, ls.len() as int);
        assert(tail[k - 1] == ls[k]);
        lemma_parse_lines_fail(tail, k - 1);
    }
}

/// One line without its separator, with nothing after it, or with an
/// unparseable address fails the whole list parse: no partial list.
pub proof fn lemma_list_fails(body: Seq<char>, k: int)
    requires
        0 <= k < spec_lines(body).len(),
        !wf_line(spec_lines(body)[k]),
    ensures
        spec_parse_list(body) is None,
{
    lemma_parse_lines_fail(spec_lines(body), k);
}

} // verus!
