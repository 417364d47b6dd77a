//! MIDI ports that SysEx messages are sent through.
//!
//! The development setup uses [`MockPort`], which accepts and drops every
//! message; [`HostMidiPort`] names the host MIDI port (by a substring of
//! its name) that the server sends through; the sending itself is MIDI I/O
//! and lives with the server.
use vstd::prelude::*;

verus! {

/// A MIDI output that SysEx messages can be sent through.
pub trait MidiPort {
    /// Sends one SysEx message; on failure, the reason.
    fn send_sysex(&self, data: &[u8]) -> Result<(), String>;

    /// The short name of the port kind, reported in results as `mode`.
    fn name(&self) -> &'static str;
}

/// A port that accepts every message and sends nothing.
#[derive(Debug, Default)]
pub struct MockPort;

impl MidiPort for MockPort {
    fn send_sysex(&self, data: &[u8]) -> (r: Result<(), String>)
        ensures
            r is Ok,
    {
        Ok(())
    }

    fn name(&self) -> (r: &'static str)
        ensures
            r@ == "mock"@,
    {
        "mock"
    }
}

/// The substring that the host MIDI port's name is matched against when no
/// `MIDI_PORT` setting is given.
pub open spec fn default_port_name() -> Seq<char> {
    "loopMIDI Port"@
}

/// The text that the host MIDI port's name must contain: the `MIDI_PORT`
/// setting, or `"loopMIDI Port"`.
pub fn wanted_port_name(setting: Option<String>) -> (r: String)
    ensures
        r@ == match setting {
            Some(s) => s@,
            None => default_port_name(),
        },
{
    match setting {
        Some(s) => s,
        None => "loopMIDI Port".to_owned(),
    }
}

/// The host MIDI port, found by a substring of its name.
pub struct HostMidiPort {
    pub port_name: String,
}

impl HostMidiPort {
    /// The host port for the given `MIDI_PORT` setting.
    pub fn new(setting: Option<String>) -> (r: HostMidiPort)
        ensures
            r.port_name@ == match setting {
                Some(s) => s@,
                None => default_port_name(),
            },
    {
        HostMidiPort { port_name: wanted_port_name(setting) }
    }

    /// The short name of the host port kind, reported in results as `mode`.
    pub fn name(&self) -> (r: &'static str)
        ensures
            r@ == "host-midi"@,
    {
        "host-midi"
    }
}

/// Whether the `MIDI_MODE` setting selects the host port rather than the
/// mock one: exactly when it is `"host"`.
pub fn uses_host_port(mode: &Option<String>) -> (r: bool)
    ensures
        r == (mode matches Some(m) && m@ == "host"@),
{
    match mode {
        Some(m) => crate::json::str_eq(m.as_str(), "host"),
        None => false,
    }
}

} // verus!
