//! The Cubase side of the API: turning calls into SysEx traffic and results.
pub mod dispatcher;
