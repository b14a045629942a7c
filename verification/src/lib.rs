//! Verified client core for a router's Wake-on-LAN web management API.
//!
//! The router exposes two incompatible web interfaces (an old CGI-based one
//! and a new JSON-service one). This library holds everything about the two
//! protocols that can be stated and checked as pure logic: building the HTTP
//! requests, classifying the version probe, parsing the old interface's
//! `mac;name` list format, interpreting the new interface's JSON envelopes,
//! and routing every operation to the variant selected at login. The actual
//! HTTP transport lives outside the library and hands in plain status codes
//! and body text.

pub mod clients;
pub mod encode;
pub mod interface;
pub mod json;
pub mod mac;
pub mod request;
pub mod text;
