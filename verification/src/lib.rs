//! Verified core of the Cubase external-control API: the JSON model that
//! requests and replies are read and built in, the SysEx framing of JSON
//! envelopes, JSON-RPC 2.0 request handling and the dispatcher's decisions.
pub mod cubase;
pub mod http;
pub mod json;
pub mod json_parse;
pub mod json_text;
pub mod midi;
pub mod rpc;
pub mod text;
