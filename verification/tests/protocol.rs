//! Version detection, the two login protocols, envelope interpretation and
//! facade routing.

use iptime_wol::clients::new_ui;
use iptime_wol::clients::old_ui;
use iptime_wol::clients::version_detector::{classify_status, Version};
use iptime_wol::clients::{login_response, login_version, Client, Error as LoginError};
use iptime_wol::interface::Error;
use iptime_wol::mac::MacAddress;
use iptime_wol::request::Method;

#[test]
fn detection_success_status_is_new_ui() {
    assert_eq!(classify_status(Some(200)), Some(Version::NewUi));
    assert_eq!(classify_status(Some(204)), Some(Version::NewUi));
    assert_eq!(classify_status(Some(299)), Some(Version::NewUi));
}

#[test]
fn detection_other_status_is_old_ui() {
    assert_eq!(classify_status(Some(199)), Some(Version::OldUi));
    assert_eq!(classify_status(Some(302)), Some(Version::OldUi));
    assert_eq!(classify_status(Some(404)), Some(Version::OldUi));
    assert_eq!(classify_status(Some(502)), Some(Version::OldUi));
}

#[test]
fn detection_no_response_is_undetermined() {
    assert_eq!(classify_status(None), None);
    assert_eq!(login_version(None).unwrap_err(), LoginError::InvalidVersion);
}

#[test]
fn old_login_ok_carries_session() {
    let client = old_ui::ClientBuilder::login_response(200, "SESS42").unwrap();
    let req = client.list_request().unwrap();
    assert_eq!(req.method, Method::Get);
    assert_eq!(req.path_and_query, "/sess-bin/info.cgi?act=wol_list");
    assert_eq!(req.headers.len(), 1);
    assert_eq!(req.headers[0].0, "Cookie");
    assert_eq!(req.headers[0].1, "efm_session_id=SESS42");
    assert!(req.body.is_none());
}

#[test]
fn old_login_bad_gateway_is_auth_failure() {
    assert_eq!(old_ui::ClientBuilder::login_response(502, "").unwrap_err(), Error::Auth);
}

#[test]
fn old_login_other_status_is_server_failure() {
    assert_eq!(old_ui::ClientBuilder::login_response(500, "").unwrap_err(), Error::Server);
    assert_eq!(old_ui::ClientBuilder::login_response(302, "x").unwrap_err(), Error::Server);
}

#[test]
fn old_login_request_encodes_form() {
    let req = old_ui::ClientBuilder::login_request("u ser", "p&w=1");
    assert_eq!(req.method, Method::Post);
    assert_eq!(req.path_and_query, "/sess-bin/login_handler.cgi");
    assert_eq!(req.body.as_deref(), Some("username=u%20ser&passwd=p%26w%3D1&act=session_id"));
}

#[test]
fn old_login_request_encodes_non_ascii_and_delete() {
    let req = old_ui::ClientBuilder::login_request("caf\u{e9}", "a\u{7f}b");
    assert_eq!(req.body.as_deref(), Some("username=caf%C3%A9&passwd=a%7Fb&act=session_id"));
}

#[test]
fn old_signal_body_with_marker_is_server_failure() {
    assert_eq!(old_ui::signal_response("failed to wake").unwrap_err(), Error::Server);
}

#[test]
fn old_signal_body_without_marker_succeeds() {
    assert!(old_ui::signal_response("OK: queued").is_ok());
    assert!(old_ui::signal_response("").is_ok());
}

#[test]
fn old_unauthenticated_operations_are_refused() {
    let client = old_ui::Client { emf_session_id: None };
    assert_eq!(client.list_request().unwrap_err(), Error::Auth);
    let mac = MacAddress::parse("aa:bb:cc:dd:ee:ff").unwrap();
    assert_eq!(client.signal_request(&mac).unwrap_err(), Error::Auth);
    assert_eq!(client.logout_request().unwrap_err(), Error::Auth);
}

#[test]
fn new_envelope_error_wins_over_result() {
    let env = new_ui::extract_envelope("{\"error\":{\"code\":1},\"result\":[1,2,3]}");
    assert!(matches!(env, new_ui::Envelope::ErrorPresent));
    assert_eq!(new_ui::ack_response(&env).unwrap_err(), Error::Server);
    assert_eq!(new_ui::list_response(&env).unwrap_err(), Error::Server);
}

#[test]
fn new_envelope_null_error_is_no_error() {
    let env = new_ui::extract_envelope("{\"error\":null}");
    assert!(new_ui::ack_response(&env).is_ok());
}

#[test]
fn new_envelope_without_result_fails_list() {
    let env = new_ui::extract_envelope("{}");
    assert!(new_ui::ack_response(&env).is_ok());
    assert_eq!(new_ui::list_response(&env).unwrap_err(), Error::Server);
}

#[test]
fn new_envelope_non_json_is_server_failure() {
    let env = new_ui::extract_envelope("<html>busy</html>");
    assert_eq!(new_ui::ack_response(&env).unwrap_err(), Error::Server);
}

#[test]
fn new_envelope_non_object_is_server_failure() {
    let env = new_ui::extract_envelope("[1,2]");
    assert_eq!(new_ui::ack_response(&env).unwrap_err(), Error::Server);
}

#[test]
fn new_envelope_malformed_result_fails_list() {
    let env = new_ui::extract_envelope("{\"result\":\"soon\"}");
    assert_eq!(new_ui::list_response(&env).unwrap_err(), Error::Server);
    let env = new_ui::extract_envelope("{\"result\":[{\"pcname\":\"NoMac\"}]}");
    assert_eq!(new_ui::list_response(&env).unwrap_err(), Error::Server);
}

#[test]
fn new_list_bad_mac_is_parsing_failure() {
    let env = new_ui::extract_envelope("{\"result\":[{\"mac\":\"nope\",\"pcname\":\"X\"}]}");
    assert_eq!(new_ui::list_response(&env).unwrap_err(), Error::Parsing);
}

#[test]
fn new_login_request_escapes_credentials() {
    let req = new_ui::ClientBuilder::login_request("a\"b", "p\\w");
    assert_eq!(req.method, Method::Post);
    assert_eq!(req.path_and_query, "cgi/service.cgi");
    assert_eq!(
        req.body.as_deref(),
        Some("{\"method\":\"session/login\",\"params\":{\"id\":\"a\\\"b\",\"pw\":\"p\\\\w\"}}")
    );
}

#[test]
fn new_login_body_matches_json_writer() {
    let id = "weird \"id\"\\ with \u{1b} control\tchars";
    let pw = "p\u{221a}ssword and \u{8} more";
    let req = new_ui::ClientBuilder::login_request(id, pw);
    let body = req.body.unwrap();
    let expected = format!(
        "{{\"method\":\"session/login\",\"params\":{{\"id\":{},\"pw\":{}}}}}",
        serde_json::to_string(id).unwrap(),
        serde_json::to_string(pw).unwrap()
    );
    assert_eq!(body, expected);
    let parsed: serde_json::Value = serde_json::from_str(&body).unwrap();
    assert_eq!(parsed["params"]["id"].as_str().unwrap(), id);
    assert_eq!(parsed["params"]["pw"].as_str().unwrap(), pw);
}

#[test]
fn new_client_config_has_cookie_jar_and_referer() {
    let cfg = new_ui::client_config("http://192.168.0.1/");
    assert!(cfg.cookie_store);
    assert_eq!(cfg.default_headers[0].0, "Referer");
    assert_eq!(cfg.default_headers[0].1, "http://192.168.0.1/ui/wol");
    assert_eq!(cfg.default_headers[1].0, "Origin");
    assert_eq!(cfg.default_headers[1].1, "http://192.168.0.1/");
}

#[test]
fn old_client_config_has_referer_and_no_cookie_jar() {
    let cfg = old_ui::client_config("http://192.168.0.1/");
    assert!(!cfg.cookie_store);
    assert_eq!(cfg.default_headers[0].0, "Referer");
    assert_eq!(cfg.default_headers[0].1, "http://192.168.0.1/");
    assert!(cfg.user_agent.starts_with("Mozilla/5.0"));
}

#[test]
fn facade_new_ui_scenario_lists_one_machine() {
    let client = login_response(Version::NewUi, 200, "{\"result\":\"ok\"}").unwrap();
    let body = "{\"result\":[{\"mac\":\"aa:bb:cc:dd:ee:ff\",\"pcname\":\"Desktop1\"}]}";
    let list = client.list_response(body).unwrap();
    assert_eq!(list.len(), 1);
    assert_eq!(list[0].name, "Desktop1");
    assert_eq!(list[0].mac_address.canonical_string(), "aa:bb:cc:dd:ee:ff");
}

#[test]
fn facade_old_login_bad_gateway_is_auth_failure() {
    let err = login_response(Version::OldUi, 502, "").unwrap_err();
    assert_eq!(err, LoginError::WolError(Error::Auth));
}

#[test]
fn facade_routes_by_selected_variant() {
    let old = login_response(Version::OldUi, 200, "S").unwrap();
    let new = login_response(Version::NewUi, 200, "{}").unwrap();
    let mac = MacAddress::parse("aa:bb:cc:dd:ee:ff").unwrap();

    let old_list = old.list_request().unwrap();
    assert_eq!(old_list.path_and_query, "/sess-bin/info.cgi?act=wol_list");
    let new_list = new.list_request().unwrap();
    assert_eq!(new_list.path_and_query, "cgi/service.cgi");
    assert_eq!(new_list.body.as_deref(), Some("{\"method\":\"wol/show\"}"));

    let old_sig = old.signal_request(&mac).unwrap();
    assert_eq!(
        old_sig.path_and_query,
        "/sess-bin/wol_apply.cgi?act=wakeup&mac=aa%3Abb%3Acc%3Add%3Aee%3Aff"
    );
    let new_sig = new.signal_request(&mac).unwrap();
    assert_eq!(
        new_sig.body.as_deref(),
        Some("{\"method\":\"wol/signal\",\"params\":[\"aa:bb:cc:dd:ee:ff\"]}")
    );

    let old_out = old.logout_request().unwrap();
    assert_eq!(old_out.path_and_query, "/sess-bin/login_session.cgi?logout=1");
    let new_out = new.logout_request().unwrap();
    assert_eq!(new_out.body.as_deref(), Some("{\"method\":\"session/logout\"}"));

    assert!(old.logout_response("anything").is_ok());
    assert!(matches!(old, Client::OldUi(_)));
    assert!(matches!(new, Client::NewUi(_)));
}

#[test]
fn signal_requests_are_rebuilt_each_call_without_dedup() {
    let client = login_response(Version::OldUi, 200, "S").unwrap();
    let mac = MacAddress::parse("aa:bb:cc:dd:ee:ff").unwrap();
    let first = client.signal_request(&mac).unwrap();
    let second = client.signal_request(&mac).unwrap();
    assert_eq!(first.path_and_query, second.path_and_query);
    assert_eq!(first.headers, second.headers);
}

#[test]
fn facade_old_signal_marker_even_with_ok_status() {
    let client = login_response(Version::OldUi, 200, "S").unwrap();
    assert_eq!(client.signal_response("wol failed to wake target").unwrap_err(), Error::Server);
    assert!(client.signal_response("done").is_ok());
}
