//! Hardware-address handling and the legacy list format.

use iptime_wol::clients::old_ui;
use iptime_wol::interface::Error;
use iptime_wol::mac::MacAddress;

#[test]
fn mac_parse_canonical() {
    let m = MacAddress::parse("aa:bb:cc:dd:ee:ff").unwrap();
    assert_eq!(m.bytes, [0xaa, 0xbb, 0xcc, 0xdd, 0xee, 0xff]);
    assert_eq!(m.canonical_string(), "aa:bb:cc:dd:ee:ff");
}

#[test]
fn mac_parse_uppercase_lowers() {
    let m = MacAddress::parse("AA:0B:C1:DD:EE:0F").unwrap();
    assert_eq!(m.bytes, [0xaa, 0x0b, 0xc1, 0xdd, 0xee, 0x0f]);
    assert_eq!(m.canonical_string(), "aa:0b:c1:dd:ee:0f");
}

#[test]
fn mac_format_then_parse_roundtrip() {
    let m = MacAddress { bytes: [0, 1, 0x7f, 0x80, 0xfe, 0xff] };
    let text = m.canonical_string();
    assert_eq!(text, "00:01:7f:80:fe:ff");
    let back = MacAddress::parse(&text).unwrap();
    assert_eq!(back.bytes, m.bytes);
}

#[test]
fn mac_parse_rejects_malformed() {
    assert!(MacAddress::parse("").is_none());
    assert!(MacAddress::parse("aa:bb:cc:dd:ee").is_none());
    assert!(MacAddress::parse("aa:bb:cc:dd:ee:f").is_none());
    assert!(MacAddress::parse("aa:bb:cc:dd:ee:fg").is_none());
    assert!(MacAddress::parse("aabbccddeeff").is_none());
    assert!(MacAddress::parse("aa-bb-cc-dd-ee-ff").is_none());
    assert!(MacAddress::parse("aa:bb:cc:dd:ee:ff ").is_none());
}

#[test]
fn list_two_wellformed_lines_in_order() {
    let body = "aa:bb:cc:dd:ee:ff;Desktop1\n11:22:33:44:55:66;Other PC";
    let list = old_ui::parse_wol_list(body).unwrap();
    assert_eq!(list.len(), 2);
    assert_eq!(list[0].name, "Desktop1");
    assert_eq!(list[0].mac_address.canonical_string(), "aa:bb:cc:dd:ee:ff");
    assert_eq!(list[1].name, "Other PC");
    assert_eq!(list[1].mac_address.canonical_string(), "11:22:33:44:55:66");
}

#[test]
fn list_empty_body_is_empty_list() {
    let list = old_ui::parse_wol_list("").unwrap();
    assert_eq!(list.len(), 0);
}

#[test]
fn list_trailing_newline_and_carriage_return() {
    let body = "aa:bb:cc:dd:ee:ff;Desktop1\r\n";
    let list = old_ui::parse_wol_list(body).unwrap();
    assert_eq!(list.len(), 1);
    assert_eq!(list[0].name, "Desktop1");
}

#[test]
fn list_final_line_without_newline_keeps_carriage_return() {
    let body = "aa:bb:cc:dd:ee:ff;Desktop1\r";
    let list = old_ui::parse_wol_list(body).unwrap();
    assert_eq!(list.len(), 1);
    assert_eq!(list[0].name, "Desktop1\r");
}

#[test]
fn list_line_without_separator_fails_whole_call() {
    let body = "aa:bb:cc:dd:ee:ff;Desktop1\naa:bb:cc:dd:ee:ff";
    assert_eq!(old_ui::parse_wol_list(body).unwrap_err(), Error::Parsing);
}

#[test]
fn list_line_with_bad_mac_fails_whole_call() {
    let body = "zz:bb:cc:dd:ee:ff;Desktop1";
    assert_eq!(old_ui::parse_wol_list(body).unwrap_err(), Error::Parsing);
}

#[test]
fn list_line_with_nothing_after_separator_fails() {
    let body = "aa:bb:cc:dd:ee:ff;";
    assert_eq!(old_ui::parse_wol_list(body).unwrap_err(), Error::Parsing);
}

#[test]
fn list_keeps_name_up_to_second_separator() {
    let body = "aa:bb:cc:dd:ee:ff;Desk;ignored";
    let list = old_ui::parse_wol_list(body).unwrap();
    assert_eq!(list.len(), 1);
    assert_eq!(list[0].name, "Desk");
}
