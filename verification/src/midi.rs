//! MIDI side of the API: SysEx framing, ports, and response correlation.
pub mod port;
pub mod responder;
pub mod sysex;
